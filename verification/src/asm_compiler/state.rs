//! The data that lowering works on: registers, instructions, code lines and the state of
//! the converter, each with its mathematical view.

use crate::asm_compiler::builder::{
    add_view, build_add, build_mul, build_number, build_sub, mul_view, number_view, sub_view,
    sum_view, witness_column, witness_column_view,
};
use crate::asm_compiler::error::{stepped, CompileError};
use crate::asm_compiler::laws::lemma_create_pair_wf;
use crate::number::Number;
use crate::ordered::{has_key, key_index, sorted_by_key};
use crate::parser::asm_ast::{InstructionParam, InstructionParamView};
use crate::parser::ast::{
    duplicate_names, duplicate_optional_name, duplicate_statements, lemma_deep_view_push,
    Expression, ExpressionView, Statement, StatementView,
};
use crate::text::{fixed_name, make_fixed_name};
use vstd::arithmetic::power2::{
    lemma2_to64, lemma2_to64_rest, lemma_pow2_strictly_increases, lemma_pow2_unfold, pow2,
};
use vstd::prelude::*;
use vstd::string::*;

verus! {

/// What a term of an affine value multiplies.
#[derive(Debug, PartialEq, Eq)]
pub enum AffineExpressionComponent {
    Register(String),
    Constant,
    FreeInput(Expression),
}

/// The view of an [`AffineExpressionComponent`].
pub enum AffineExpressionComponentView {
    Register(Seq<char>),
    Constant,
    FreeInput(ExpressionView),
}

impl DeepView for AffineExpressionComponent {
    type V = AffineExpressionComponentView;

    open spec fn deep_view(&self) -> AffineExpressionComponentView {
        match self {
            AffineExpressionComponent::Register(name) => AffineExpressionComponentView::Register(
                name@,
            ),
            AffineExpressionComponent::Constant => AffineExpressionComponentView::Constant,
            AffineExpressionComponent::FreeInput(e) => AffineExpressionComponentView::FreeInput(
                e.deep_view(),
            ),
        }
    }
}

/// A register: how it is updated from one row to the next.
#[derive(Debug, PartialEq, Eq)]
pub struct Register {
    /// Pairs of a condition and the value that the register takes in the next row if the
    /// condition holds. The conditions are taken to exclude each other.
    pub conditioned_updates: Vec<(Expression, Expression)>,
    /// The value in the next row if no condition holds.
    pub default_update: Option<Expression>,
    pub is_assignment: bool,
}

/// The view of a [`Register`].
pub struct RegisterView {
    pub conditioned_updates: Seq<(ExpressionView, ExpressionView)>,
    pub default_update: Option<ExpressionView>,
    pub is_assignment: bool,
}

impl DeepView for Register {
    type V = RegisterView;

    open spec fn deep_view(&self) -> RegisterView {
        RegisterView {
            conditioned_updates: self.conditioned_updates.deep_view(),
            default_update: self.default_update.deep_view(),
            is_assignment: self.is_assignment,
        }
    }
}

impl RegisterView {
    /// The products of each condition with its value.
    pub open spec fn update_products(self) -> Seq<ExpressionView> {
        Seq::new(
            self.conditioned_updates.len(),
            |k: int| mul_view(self.conditioned_updates[k].0, self.conditioned_updates[k].1),
        )
    }

    /// The conditions alone.
    pub open spec fn update_conditions(self) -> Seq<ExpressionView> {
        Seq::new(self.conditioned_updates.len(), |k: int| self.conditioned_updates[k].0)
    }

    /// The value of the register in the next row: the sum of the conditioned updates, plus
    /// the default update under the condition that no other condition holds. A register
    /// without conditioned updates takes its default update, if it has one.
    pub open spec fn update_expression(self) -> Option<ExpressionView> {
        if self.conditioned_updates.len() == 0 {
            self.default_update
        } else {
            match self.default_update {
                None => Some(sum_view(self.update_products())),
                Some(default) => Some(
                    add_view(
                        sum_view(self.update_products()),
                        mul_view(
                            sub_view(number_view(1), sum_view(self.update_conditions())),
                            default,
                        ),
                    ),
                ),
            }
        }
    }
}

impl Register {
    /// Returns the expression assigned to this register in the next row.
    pub fn update_expression(&self) -> (r: Option<Expression>)
        ensures
            r.deep_view() == self.deep_view().update_expression(),
    {
        let count = self.conditioned_updates.len();
        if count == 0 {
            return match &self.default_update {
                Some(d) => Some(d.duplicate()),
                None => None,
            };
        }
        let ghost view = self.deep_view();
        let ghost products = view.update_products();
        let ghost conditions = view.update_conditions();
        let mut updates = build_mul(
            self.conditioned_updates[0].0.duplicate(),
            self.conditioned_updates[0].1.duplicate(),
        );
        let mut condition_sum = self.conditioned_updates[0].0.duplicate();
        let mut k: usize = 1;
        while k < count
            invariant
                1 <= k <= count,
                count == self.conditioned_updates.len(),
                view == self.deep_view(),
                products == view.update_products(),
                conditions == view.update_conditions(),
                updates.deep_view() == sum_view(products.take(k as int)),
                condition_sum.deep_view() == sum_view(conditions.take(k as int)),
            decreases count - k,
        {
            let product = build_mul(
                self.conditioned_updates[k].0.duplicate(),
                self.conditioned_updates[k].1.duplicate(),
            );
            updates = build_add(updates, product);
            condition_sum = build_add(condition_sum, self.conditioned_updates[k].0.duplicate());
            proof {
                assert(products.take(k + 1).drop_last() =~= products.take(k as int));
                assert(conditions.take(k + 1).drop_last() =~= conditions.take(k as int));
            }
            k += 1;
        }
        proof {
            assert(products.take(count as int) =~= products);
            assert(conditions.take(count as int) =~= conditions);
        }
        match &self.default_update {
            None => Some(updates),
            Some(default) => {
                let default_condition = build_sub(build_number(Number::from_u64(1)), condition_sum);
                Some(build_add(updates, build_mul(default_condition, default.duplicate())))
            },
        }
    }
}

/// An instruction: its parameters in order.
#[derive(Debug, PartialEq, Eq)]
pub struct Instruction {
    pub params: Vec<InstructionParam>,
}

/// The view of an [`Instruction`].
pub struct InstructionView {
    pub params: Seq<InstructionParamView>,
}

impl DeepView for Instruction {
    type V = InstructionView;

    open spec fn deep_view(&self) -> InstructionView {
        InstructionView { params: self.params.deep_view() }
    }
}

/// One row of the program.
#[derive(Debug, PartialEq, Eq)]
pub struct CodeLine {
    /// For each assignment register, in the order of names, the regular registers that it
    /// writes into.
    pub write_regs: Vec<(String, Vec<String>)>,
    /// For each assignment register, in the order of names, the affine value that it reads.
    pub value: Vec<(String, Vec<(Number, AffineExpressionComponent)>)>,
    pub label: Option<String>,
    pub instruction: Option<String>,
    /// The label arguments of the instruction, by parameter position.
    pub instruction_literal_args: Vec<Option<String>>,
}

/// The view of a [`CodeLine`].
pub struct CodeLineView {
    pub write_regs: Seq<(Seq<char>, Seq<Seq<char>>)>,
    pub value: Seq<(Seq<char>, Seq<(int, AffineExpressionComponentView)>)>,
    pub label: Option<Seq<char>>,
    pub instruction: Option<Seq<char>>,
    pub instruction_literal_args: Seq<Option<Seq<char>>>,
}

impl DeepView for CodeLine {
    type V = CodeLineView;

    open spec fn deep_view(&self) -> CodeLineView {
        CodeLineView {
            write_regs: self.write_regs.deep_view(),
            value: self.value.deep_view(),
            label: self.label.deep_view(),
            instruction: self.instruction.deep_view(),
            instruction_literal_args: self.instruction_literal_args.deep_view(),
        }
    }
}

/// The state of a compilation.
#[derive(Debug, PartialEq, Eq)]
pub struct ASMPILConverter {
    pub degree_exponent: u32,
    pub pil: Vec<Statement>,
    pub pc_name: Option<String>,
    /// The registers in the order of their names.
    pub registers: Vec<(String, Register)>,
    /// The instructions in the order of their names.
    pub instructions: Vec<(String, Instruction)>,
    pub code_lines: Vec<CodeLine>,
    /// Pairs of columns that are used in the connecting plookup
    pub line_lookup: Vec<(String, String)>,
    /// Names of fixed columns that contain the program.
    pub program_constant_names: Vec<String>,
}

/// The view of an [`ASMPILConverter`]: the state of a compilation as mathematical values.
pub struct ConverterView {
    pub degree_exponent: u32,
    pub pil: Seq<StatementView>,
    pub pc_name: Option<Seq<char>>,
    pub registers: Seq<(Seq<char>, RegisterView)>,
    pub instructions: Seq<(Seq<char>, InstructionView)>,
    pub code_lines: Seq<CodeLineView>,
    pub line_lookup: Seq<(Seq<char>, Seq<char>)>,
    pub program_constant_names: Seq<Seq<char>>,
}

impl DeepView for ASMPILConverter {
    type V = ConverterView;

    open spec fn deep_view(&self) -> ConverterView {
        ConverterView {
            degree_exponent: self.degree_exponent,
            pil: self.pil.deep_view(),
            pc_name: self.pc_name.deep_view(),
            registers: self.registers.deep_view(),
            instructions: self.instructions.deep_view(),
            code_lines: self.code_lines.deep_view(),
            line_lookup: self.line_lookup.deep_view(),
            program_constant_names: self.program_constant_names.deep_view(),
        }
    }
}

/// Whether `n` is a power of two that a 64-bit degree can hold.
pub open spec fn is_power_of_two(n: int) -> bool {
    exists|e: nat| e < 64 && #[trigger] pow2(e) == n
}

/// The exponent of a power of two.
pub open spec fn exponent_of(n: int) -> nat {
    choose|e: nat| e < 64 && #[trigger] pow2(e) == n
}

/// The names of the registers that are (or are not) assignment registers, in order.
pub open spec fn names_with_flag(
    registers: Seq<(Seq<char>, RegisterView)>,
    assignment: bool,
) -> Seq<Seq<char>>
    decreases registers.len(),
{
    if registers.len() == 0 {
        seq![]
    } else {
        let rest = names_with_flag(registers.drop_last(), assignment);
        if registers.last().1.is_assignment == assignment {
            rest.push(registers.last().0)
        } else {
            rest
        }
    }
}

/// The fixed names of the pairs of a lookup other than the pair of the program counter,
/// whose fixed column is `line`.
pub open spec fn program_columns(line_lookup: Seq<(Seq<char>, Seq<char>)>) -> Seq<Seq<char>>
    decreases line_lookup.len(),
{
    if line_lookup.len() == 0 {
        seq![]
    } else {
        let rest = program_columns(line_lookup.drop_last());
        if line_lookup.last().1 == "line"@ {
            rest
        } else {
            rest.push(line_lookup.last().1)
        }
    }
}

impl ConverterView {
    /// The state before anything is compiled.
    pub open spec fn empty() -> ConverterView {
        ConverterView {
            degree_exponent: 0,
            pil: seq![],
            pc_name: None,
            registers: seq![],
            instructions: seq![],
            code_lines: seq![],
            line_lookup: seq![],
            program_constant_names: seq![],
        }
    }

    /// The number of rows of the trace.
    pub open spec fn degree(self) -> nat {
        pow2(self.degree_exponent as nat)
    }

    /// A pair of the line lookup is either a witness with its program column, or the
    /// program counter with the column `line`.
    pub open spec fn lookup_pair_ok(self, pair: (Seq<char>, Seq<char>)) -> bool {
        pair.1 == fixed_name(pair.0) || (self.pc_name == Some(pair.0) && pair.1 == "line"@)
    }

    /// A code line that runs an instruction has one literal argument, or none, for each
    /// parameter of that instruction, which is declared; any other code line has no such
    /// arguments.
    pub open spec fn line_matches(self, line: CodeLineView) -> bool {
        match line.instruction {
            Some(name) => has_key(self.instructions, name)
                && line.instruction_literal_args.len() == self.instructions[key_index(
                self.instructions,
                name,
            )].1.params.len(),
            None => line.instruction_literal_args.len() == 0,
        }
    }

    /// The invariant of the state: the degree fits, registers and instructions are in the
    /// order of their names, every register that is no assignment register has a
    /// conditioned update, every code line matches its instruction, and the line lookup
    /// pairs each witness with its program column.
    pub open spec fn wf(self) -> bool {
        &&& self.degree_exponent < 64
        &&& sorted_by_key(self.registers)
        &&& sorted_by_key(self.instructions)
        &&& forall|k: int|
            0 <= k < self.registers.len() && !(#[trigger] self.registers[k]).1.is_assignment
                ==> self.registers[k].1.conditioned_updates.len() > 0
        &&& forall|k: int|
            0 <= k < self.line_lookup.len() ==> self.lookup_pair_ok(#[trigger] self.line_lookup[k])
        &&& self.program_constant_names == program_columns(self.line_lookup)
        &&& forall|i: int|
            0 <= i < self.code_lines.len() ==> self.line_matches(#[trigger] self.code_lines[i])
    }

    /// The state with one more statement.
    pub open spec fn emit(self, statement: StatementView) -> ConverterView {
        ConverterView { pil: self.pil.push(statement), ..self }
    }

    /// The state with a degree, which must be a power of two.
    pub open spec fn set_degree(self, degree: u64) -> Result<ConverterView, CompileError> {
        if is_power_of_two(degree as int) {
            Ok(ConverterView { degree_exponent: exponent_of(degree as int) as u32, ..self })
        } else {
            Err(CompileError::Shape)
        }
    }

    /// The state with a witness column for each name, matched in the line lookup with a
    /// program column of its own.
    pub open spec fn create_witness_fixed_pairs(
        self,
        start: usize,
        names: Seq<Seq<char>>,
    ) -> ConverterView {
        ConverterView {
            pil: self.pil + Seq::new(
                names.len(),
                |k: int| witness_column_view(start, names[k], None),
            ),
            line_lookup: self.line_lookup + Seq::new(
                names.len(),
                |k: int| (names[k], fixed_name(names[k])),
            ),
            program_constant_names: self.program_constant_names + Seq::new(
                names.len(),
                |k: int| fixed_name(names[k]),
            ),
            ..self
        }
    }

    /// The state with one more witness column, matched in the line lookup with its
    /// program column.
    pub open spec fn create_witness_fixed_pair(
        self,
        start: usize,
        name: Seq<char>,
    ) -> ConverterView {
        ConverterView {
            pil: self.pil.push(witness_column_view(start, name, None)),
            line_lookup: self.line_lookup.push((name, fixed_name(name))),
            program_constant_names: self.program_constant_names.push(fixed_name(name)),
            ..self
        }
    }

    /// The names of the assignment registers, in order.
    pub open spec fn assignment_registers(self) -> Seq<Seq<char>> {
        names_with_flag(self.registers, true)
    }

    /// The names of the other registers, the program counter among them, in order.
    pub open spec fn regular_registers(self) -> Seq<Seq<char>> {
        names_with_flag(self.registers, false)
    }
}

/// Creating pairs for a list of names is creating them one after the other.
pub proof fn lemma_create_pairs_push(
    s: ConverterView,
    start: usize,
    names: Seq<Seq<char>>,
    name: Seq<char>,
)
    ensures
        s.create_witness_fixed_pairs(start, names.push(name)) == s.create_witness_fixed_pairs(
            start,
            names,
        ).create_witness_fixed_pair(start, name),
{
    let a = s.create_witness_fixed_pairs(start, names.push(name));
    let b = s.create_witness_fixed_pairs(start, names).create_witness_fixed_pair(start, name);
    assert(a.pil =~= b.pil);
    assert(a.line_lookup =~= b.line_lookup);
    assert(a.program_constant_names =~= b.program_constant_names);
}

/// Creating pairs for no name changes nothing.
pub proof fn lemma_create_pairs_empty(s: ConverterView, start: usize)
    ensures
        s.create_witness_fixed_pairs(start, seq![]) == s,
{
}

impl ASMPILConverter {
    /// The state before anything is compiled.
    pub fn new() -> (r: Self)
        ensures
            r.deep_view() == ConverterView::empty(),
            r.deep_view().wf(),
    {
        let r = ASMPILConverter {
            degree_exponent: 0,
            pil: Vec::new(),
            pc_name: None,
            registers: Vec::new(),
            instructions: Vec::new(),
            code_lines: Vec::new(),
            line_lookup: Vec::new(),
            program_constant_names: Vec::new(),
        };
        proof {
            let v = r.deep_view();
            assert(v.pil =~= seq![]);
            assert(v.registers =~= seq![]);
            assert(v.instructions =~= seq![]);
            assert(v.code_lines =~= seq![]);
            assert(v.line_lookup =~= seq![]);
            assert(v.program_constant_names =~= seq![]);
        }
        r
    }

    /// Sets the number of rows, which must be a power of two.
    pub fn set_degree(&mut self, degree: u64) -> (r: Result<(), CompileError>)
        ensures
            stepped(r, final(self).deep_view()) == old(self).deep_view().set_degree(degree),
            old(self).deep_view().wf() && r is Ok ==> final(self).deep_view().wf(),
            r is Err ==> final(self).deep_view() == old(self).deep_view(),
    {
        let mut exponent: u32 = 0;
        let mut power: u64 = 1;
        proof {
            lemma2_to64();
        }
        while exponent < 63 && power < degree
            invariant
                exponent <= 63,
                power == pow2(exponent as nat),
                forall|e: nat| e < exponent ==> #[trigger] pow2(e) < degree,
            decreases 63 - exponent,
        {
            proof {
                lemma2_to64_rest();
                lemma_pow2_unfold((exponent + 1) as nat);
                if exponent < 62 {
                    lemma_pow2_strictly_increases(exponent as nat, 62);
                }
            }
            power = power * 2;
            exponent = exponent + 1;
        }
        if power == degree {
            proof {
                let chosen = exponent_of(degree as int);
                if chosen < exponent {
                    lemma_pow2_strictly_increases(chosen, exponent as nat);
                } else if chosen > exponent {
                    lemma_pow2_strictly_increases(exponent as nat, chosen);
                }
            }
            self.degree_exponent = exponent;
            Ok(())
        } else {
            proof {
                assert forall|e: nat| e < 64 implies #[trigger] pow2(e) != degree by {
                    if e > exponent {
                        lemma_pow2_strictly_increases(exponent as nat, e);
                    }
                }
            }
            Err(CompileError::Shape)
        }
    }

    /// The number of rows.
    pub fn degree(&self) -> (r: u64)
        requires
            self.degree_exponent < 64,
        ensures
            r as nat == self.deep_view().degree(),
    {
        let mut exponent: u32 = 0;
        let mut power: u64 = 1;
        proof {
            lemma2_to64();
        }
        while exponent < self.degree_exponent
            invariant
                exponent <= self.degree_exponent < 64,
                power == pow2(exponent as nat),
            decreases self.degree_exponent - exponent,
        {
            proof {
                lemma2_to64_rest();
                lemma_pow2_unfold((exponent + 1) as nat);
                if exponent < 62 {
                    lemma_pow2_strictly_increases(exponent as nat, 62);
                }
            }
            power = power * 2;
            exponent = exponent + 1;
        }
        power
    }

    /// Adds a statement to the output.
    pub fn emit(&mut self, statement: Statement)
        ensures
            final(self).deep_view() == old(self).deep_view().emit(statement.deep_view()),
            old(self).deep_view().wf() ==> final(self).deep_view().wf(),
    {
        let ghost before = self.pil;
        self.pil.push(statement);
        proof {
            lemma_deep_view_push(before, self.pil, statement);
        }
    }

    /// Creates a pair of witness and fixed column and matches them in the lookup.
    pub fn create_witness_fixed_pair(&mut self, start: usize, name: &String)
        ensures
            final(self).deep_view() == old(self).deep_view().create_witness_fixed_pair(
                start,
                name@,
            ),
            old(self).deep_view().wf() ==> final(self).deep_view().wf(),
    {
        let fixed_name = make_fixed_name(name);
        let ghost before = *self;
        let statement = witness_column(start, name.clone(), None);
        self.pil.push(statement);
        let pair = (name.clone(), fixed_name.clone());
        self.line_lookup.push(pair);
        self.program_constant_names.push(fixed_name);
        proof {
            lemma_deep_view_push(before.pil, self.pil, statement);
            lemma_deep_view_push(before.line_lookup, self.line_lookup, pair);
            lemma_deep_view_push(
                before.program_constant_names,
                self.program_constant_names,
                fixed_name,
            );
            if old(self).deep_view().wf() {
                lemma_create_pair_wf(old(self).deep_view(), start, name@);
            }
        }
    }

    fn names_with_flag(&self, assignment: bool) -> (r: Vec<String>)
        ensures
            r.deep_view() == names_with_flag(self.deep_view().registers, assignment),
    {
        let mut out: Vec<String> = Vec::new();
        let mut i: usize = 0;
        let ghost registers = self.deep_view().registers;
        while i < self.registers.len()
            invariant
                i <= self.registers.len(),
                registers == self.registers.deep_view(),
                out.deep_view() == names_with_flag(registers.take(i as int), assignment),
            decreases self.registers.len() - i,
        {
            proof {
                assert(registers.take(i + 1).drop_last() =~= registers.take(i as int));
            }
            if self.registers[i].1.is_assignment == assignment {
                let ghost before = out;
                let name = self.registers[i].0.clone();
                out.push(name);
                proof {
                    lemma_deep_view_push(before, out, name);
                }
            }
            i += 1;
        }
        assert(registers.take(i as int) =~= registers);
        out
    }

    /// The names of the assignment registers, in order.
    pub fn assignment_registers(&self) -> (r: Vec<String>)
        ensures
            r.deep_view() == self.deep_view().assignment_registers(),
    {
        self.names_with_flag(true)
    }

    /// The names of the other registers, in order.
    pub fn regular_registers(&self) -> (r: Vec<String>)
        ensures
            r.deep_view() == self.deep_view().regular_registers(),
    {
        self.names_with_flag(false)
    }
}

/// A copy of an affine value.
pub fn duplicate_terms(terms: &Vec<(Number, AffineExpressionComponent)>) -> (r: Vec<
    (Number, AffineExpressionComponent),
>)
    ensures
        r.deep_view() == terms.deep_view(),
{
    let mut out: Vec<(Number, AffineExpressionComponent)> = Vec::new();
    let mut i: usize = 0;
    while i < terms.len()
        invariant
            i <= terms.len(),
            out.len() == i,
            forall|j: int| 0 <= j < i ==> (#[trigger] out[j]).deep_view() == terms[j].deep_view(),
        decreases terms.len() - i,
    {
        let component = match &terms[i].1 {
            AffineExpressionComponent::Register(name) => AffineExpressionComponent::Register(
                name.clone(),
            ),
            AffineExpressionComponent::Constant => AffineExpressionComponent::Constant,
            AffineExpressionComponent::FreeInput(e) => AffineExpressionComponent::FreeInput(
                e.duplicate(),
            ),
        };
        out.push((terms[i].0.duplicate(), component));
        i += 1;
    }
    assert(out.deep_view() =~= terms.deep_view());
    out
}

impl Register {
    /// A structural copy of the register.
    pub fn duplicate(&self) -> (r: Register)
        ensures
            r.deep_view() == self.deep_view(),
    {
        let mut updates: Vec<(Expression, Expression)> = Vec::new();
        let mut i: usize = 0;
        while i < self.conditioned_updates.len()
            invariant
                i <= self.conditioned_updates.len(),
                updates.len() == i,
                forall|j: int|
                    0 <= j < i ==> (#[trigger] updates[j]).deep_view()
                        == self.conditioned_updates[j].deep_view(),
            decreases self.conditioned_updates.len() - i,
        {
            updates.push(
                (
                    self.conditioned_updates[i].0.duplicate(),
                    self.conditioned_updates[i].1.duplicate(),
                ),
            );
            i += 1;
        }
        assert(updates.deep_view() =~= self.conditioned_updates.deep_view());
        let default_update = match &self.default_update {
            Some(d) => Some(d.duplicate()),
            None => None,
        };
        Register { conditioned_updates: updates, default_update, is_assignment: self.is_assignment }
    }
}

/// A copy of an optional optional name.
fn duplicate_binding(binding: &Option<Option<String>>) -> (r: Option<Option<String>>)
    ensures
        r.deep_view() == binding.deep_view(),
{
    match binding {
        Some(inner) => Some(duplicate_optional_name(inner)),
        None => None,
    }
}

impl Instruction {
    /// A structural copy of the instruction.
    pub fn duplicate(&self) -> (r: Instruction)
        ensures
            r.deep_view() == self.deep_view(),
    {
        let mut params: Vec<InstructionParam> = Vec::new();
        let mut i: usize = 0;
        while i < self.params.len()
            invariant
                i <= self.params.len(),
                params.len() == i,
                forall|j: int|
                    0 <= j < i ==> (#[trigger] params[j]).deep_view()
                        == self.params[j].deep_view(),
            decreases self.params.len() - i,
        {
            let p = &self.params[i];
            params.push(
                InstructionParam {
                    name: p.name.clone(),
                    param_type: duplicate_optional_name(&p.param_type),
                    assignment_reg: (
                        duplicate_binding(&p.assignment_reg.0),
                        duplicate_binding(&p.assignment_reg.1),
                    ),
                },
            );
            i += 1;
        }
        assert(params.deep_view() =~= self.params.deep_view());
        Instruction { params }
    }
}

impl CodeLine {
    /// A structural copy of the code line.
    pub fn duplicate(&self) -> (r: CodeLine)
        ensures
            r.deep_view() == self.deep_view(),
    {
        let mut write_regs: Vec<(String, Vec<String>)> = Vec::new();
        let mut i: usize = 0;
        while i < self.write_regs.len()
            invariant
                i <= self.write_regs.len(),
                write_regs.len() == i,
                forall|j: int|
                    0 <= j < i ==> (#[trigger] write_regs[j]).deep_view()
                        == self.write_regs[j].deep_view(),
            decreases self.write_regs.len() - i,
        {
            write_regs.push(
                (self.write_regs[i].0.clone(), duplicate_names(&self.write_regs[i].1)),
            );
            i += 1;
        }
        assert(write_regs.deep_view() =~= self.write_regs.deep_view());
        let mut value: Vec<(String, Vec<(Number, AffineExpressionComponent)>)> = Vec::new();
        let mut k: usize = 0;
        while k < self.value.len()
            invariant
                k <= self.value.len(),
                value.len() == k,
                forall|j: int|
                    0 <= j < k ==> (#[trigger] value[j]).deep_view() == self.value[j].deep_view(),
            decreases self.value.len() - k,
        {
            value.push((self.value[k].0.clone(), duplicate_terms(&self.value[k].1)));
            k += 1;
        }
        assert(value.deep_view() =~= self.value.deep_view());
        let mut args: Vec<Option<String>> = Vec::new();
        let mut a: usize = 0;
        while a < self.instruction_literal_args.len()
            invariant
                a <= self.instruction_literal_args.len(),
                args.len() == a,
                forall|j: int|
                    0 <= j < a ==> (#[trigger] args[j]).deep_view()
                        == self.instruction_literal_args[j].deep_view(),
            decreases self.instruction_literal_args.len() - a,
        {
            args.push(duplicate_optional_name(&self.instruction_literal_args[a]));
            a += 1;
        }
        assert(args.deep_view() =~= self.instruction_literal_args.deep_view());
        CodeLine {
            write_regs,
            value,
            label: duplicate_optional_name(&self.label),
            instruction: duplicate_optional_name(&self.instruction),
            instruction_literal_args: args,
        }
    }
}

impl ASMPILConverter {
    /// A structural copy of the state.
    pub fn duplicate(&self) -> (r: ASMPILConverter)
        ensures
            r.deep_view() == self.deep_view(),
    {
        let mut registers: Vec<(String, Register)> = Vec::new();
        let mut i: usize = 0;
        while i < self.registers.len()
            invariant
                i <= self.registers.len(),
                registers.len() == i,
                forall|j: int|
                    0 <= j < i ==> (#[trigger] registers[j]).deep_view()
                        == self.registers[j].deep_view(),
            decreases self.registers.len() - i,
        {
            registers.push((self.registers[i].0.clone(), self.registers[i].1.duplicate()));
            i += 1;
        }
        assert(registers.deep_view() =~= self.registers.deep_view());
        let mut instructions: Vec<(String, Instruction)> = Vec::new();
        let mut k: usize = 0;
        while k < self.instructions.len()
            invariant
                k <= self.instructions.len(),
                instructions.len() == k,
                forall|j: int|
                    0 <= j < k ==> (#[trigger] instructions[j]).deep_view()
                        == self.instructions[j].deep_view(),
            decreases self.instructions.len() - k,
        {
            instructions.push((self.instructions[k].0.clone(), self.instructions[k].1.duplicate()));
            k += 1;
        }
        assert(instructions.deep_view() =~= self.instructions.deep_view());
        let mut code_lines: Vec<CodeLine> = Vec::new();
        let mut c: usize = 0;
        while c < self.code_lines.len()
            invariant
                c <= self.code_lines.len(),
                code_lines.len() == c,
                forall|j: int|
                    0 <= j < c ==> (#[trigger] code_lines[j]).deep_view()
                        == self.code_lines[j].deep_view(),
            decreases self.code_lines.len() - c,
        {
            code_lines.push(self.code_lines[c].duplicate());
            c += 1;
        }
        assert(code_lines.deep_view() =~= self.code_lines.deep_view());
        let mut line_lookup: Vec<(String, String)> = Vec::new();
        let mut l: usize = 0;
        while l < self.line_lookup.len()
            invariant
                l <= self.line_lookup.len(),
                line_lookup.len() == l,
                forall|j: int|
                    0 <= j < l ==> (#[trigger] line_lookup[j]).deep_view()
                        == self.line_lookup[j].deep_view(),
            decreases self.line_lookup.len() - l,
        {
            line_lookup.push((self.line_lookup[l].0.clone(), self.line_lookup[l].1.clone()));
            l += 1;
        }
        assert(line_lookup.deep_view() =~= self.line_lookup.deep_view());
        ASMPILConverter {
            degree_exponent: self.degree_exponent,
            pil: duplicate_statements(&self.pil),
            pc_name: duplicate_optional_name(&self.pc_name),
            registers,
            instructions,
            code_lines,
            line_lookup,
            program_constant_names: duplicate_names(&self.program_constant_names),
        }
    }
}

} // verus!
