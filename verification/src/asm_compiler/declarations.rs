//! Declarations of registers and instructions.

use crate::asm_compiler::builder::{
    add_view, build_add, build_mul, build_number, direct_reference, direct_reference_view,
    extract_update, extract_update_view, mul_view, next_reference, next_reference_view, number_view,
    substitute, substitute_selected_exprs, substitute_selected_view, substitute_seq_view,
    substitute_vec, substitute_view, witness_column, witness_column_view,
};
use crate::asm_compiler::error::{stepped, CompileError};
use crate::asm_compiler::laws::{lemma_declare_register_wf, lemma_define_instruction_wf};
use crate::asm_compiler::state::{
    lemma_create_pairs_empty, lemma_create_pairs_push, ASMPILConverter, ConverterView, Instruction,
    InstructionView, Register, RegisterView,
};
use crate::number::Number;
use crate::ordered::{find_key, has_key, insert_entry, insert_sorted, key_index};
use crate::parser::asm_ast::{
    InstructionBodyElement, InstructionBodyElementView, InstructionParam, InstructionParamView,
    PlookupOperator, RegisterFlag,
};
use crate::parser::ast::{
    lemma_deep_view_push, Expression, ExpressionView, SelectedExpressions, SelectedExpressionsView,
    Statement, StatementView,
};
use crate::text::{
    instruction_flag_name, make_instruction_flag_name, make_param_column_name, make_write_flag_name,
    param_column_name, write_flag_name,
};
use vstd::prelude::*;
use vstd::string::*;

verus! {

/// The identity that makes a register zero in the first row.
pub open spec fn first_row_identity(start: usize, name: Seq<char>) -> StatementView {
    StatementView::PolynomialIdentity(
        start,
        mul_view(direct_reference_view("first_step"@), direct_reference_view(name)),
    )
}

/// The conditioned update with which every updated register starts. Its value is zero;
/// its condition makes the first row take part in the default condition.
pub open spec fn seed_update() -> (ExpressionView, ExpressionView) {
    (next_reference_view("first_step"@), number_view(0))
}

/// Whether a parameter is passed as a literal, through no assignment register.
pub open spec fn is_literal_param(p: InstructionParamView) -> bool {
    p.assignment_reg.0 is None && p.assignment_reg.1 is None
}

/// The names of the literal parameters, in order.
pub open spec fn literal_param_names(params: Seq<InstructionParamView>) -> Seq<Seq<char>>
    decreases params.len(),
{
    if params.len() == 0 {
        seq![]
    } else {
        let rest = literal_param_names(params.drop_last());
        if is_literal_param(params.last()) {
            rest.push(params.last().name)
        } else {
            rest
        }
    }
}

/// The columns that carry the literal parameters of an instruction.
pub open spec fn literal_columns(instr: Seq<char>, params: Seq<InstructionParamView>) -> Seq<
    Seq<char>,
> {
    let names = literal_param_names(params);
    Seq::new(names.len(), |k: int| param_column_name(instr, names[k]))
}

/// The substitution that sends each literal parameter to its column.
pub open spec fn literal_substitution(instr: Seq<char>, params: Seq<InstructionParamView>) -> Seq<
    (Seq<char>, Seq<char>),
> {
    let names = literal_param_names(params);
    Seq::new(names.len(), |k: int| (names[k], param_column_name(instr, names[k])))
}

impl ConverterView {
    /// The names of the flags by which the assignment registers write into `name`.
    pub open spec fn write_flag_names(self, name: Seq<char>) -> Seq<Seq<char>> {
        let assign = self.assignment_registers();
        Seq::new(assign.len(), |k: int| write_flag_name(assign[k], name))
    }

    /// The updates by which the assignment registers write into `name`.
    pub open spec fn write_updates(self, name: Seq<char>) -> Seq<(ExpressionView, ExpressionView)> {
        let assign = self.assignment_registers();
        Seq::new(
            assign.len(),
            |k: int|
                (
                    direct_reference_view(write_flag_name(assign[k], name)),
                    direct_reference_view(assign[k]),
                ),
        )
    }

    /// The register that a declaration creates. The program counter advances by one unless
    /// told otherwise, an assignment register has no update, and any other register keeps
    /// its value unless an assignment register writes into it.
    pub open spec fn new_register(
        self,
        name: Seq<char>,
        flag: Option<RegisterFlag>,
    ) -> RegisterView {
        match flag {
            Some(RegisterFlag::IsPC) => RegisterView {
                conditioned_updates: seq![seed_update()],
                default_update: Some(add_view(direct_reference_view(name), number_view(1))),
                is_assignment: false,
            },
            Some(RegisterFlag::IsAssignment) => RegisterView {
                conditioned_updates: seq![],
                default_update: None,
                is_assignment: true,
            },
            None => RegisterView {
                conditioned_updates: seq![seed_update()] + self.write_updates(name),
                default_update: Some(direct_reference_view(name)),
                is_assignment: false,
            },
        }
    }

    /// The state after the declaration of a register. A name that is already declared and
    /// a second program counter are rejected.
    pub open spec fn declare_register(
        self,
        start: usize,
        name: Seq<char>,
        flag: Option<RegisterFlag>,
    ) -> Result<ConverterView, CompileError> {
        if has_key(self.registers, name) {
            Err(CompileError::Shape)
        } else if flag == Some(RegisterFlag::IsPC) && self.pc_name is Some {
            Err(CompileError::Shape)
        } else {
            let registers = insert_entry(self.registers, name, self.new_register(name, flag));
            let declared = match flag {
                Some(RegisterFlag::IsPC) => ConverterView {
                    pc_name: Some(name),
                    line_lookup: self.line_lookup.push((name, "line"@)),
                    ..self
                }.emit(first_row_identity(start, name)),
                Some(RegisterFlag::IsAssignment) => self,
                None => self.emit(first_row_identity(start, name)).create_witness_fixed_pairs(
                    start,
                    self.write_flag_names(name),
                ),
            };
            Ok(
                ConverterView { registers, ..declared }.emit(
                    witness_column_view(start, name, None),
                ),
            )
        }
    }

    /// The state in which a register has one more conditioned update.
    pub open spec fn add_conditioned_update(
        self,
        register: Seq<char>,
        condition: ExpressionView,
        value: ExpressionView,
    ) -> Result<ConverterView, CompileError> {
        let i = key_index(self.registers, register);
        if i < self.registers.len() {
            let old = self.registers[i].1;
            let new = RegisterView {
                conditioned_updates: old.conditioned_updates.push((condition, value)),
                ..old
            };
            Ok(
                ConverterView {
                    registers: self.registers.update(i, (self.registers[i].0, new)),
                    ..self
                },
            )
        } else {
            Err(CompileError::Name)
        }
    }

    /// The state after one element of an instruction's body. An expression `X' - e` makes
    /// `e` the value of register `X` on the rows where the instruction runs; any other
    /// expression must vanish there. A lookup or permutation is selected by the
    /// instruction's flag and may not have a selector of its own on the left.
    pub open spec fn body_element(
        self,
        start: usize,
        flag: Seq<char>,
        substitution: Seq<(Seq<char>, Seq<char>)>,
        element: InstructionBodyElementView,
    ) -> Result<ConverterView, CompileError> {
        match element {
            InstructionBodyElementView::Expression(e) => match extract_update_view(
                substitute_view(e, substitution),
            ) {
                Err(err) => Err(err),
                Ok((Some(register), value)) => self.add_conditioned_update(
                    register,
                    direct_reference_view(flag),
                    value,
                ),
                Ok((None, rest)) => Ok(
                    self.emit(
                        StatementView::PolynomialIdentity(
                            0,
                            mul_view(direct_reference_view(flag), rest),
                        ),
                    ),
                ),
            },
            InstructionBodyElementView::PlookupIdentity(left, op, right) => {
                if left.selector is Some {
                    Err(CompileError::Shape)
                } else {
                    let l = SelectedExpressionsView {
                        selector: Some(direct_reference_view(flag)),
                        expressions: substitute_seq_view(left.expressions, substitution),
                    };
                    let r = substitute_selected_view(right, substitution);
                    Ok(
                        self.emit(
                            match op {
                                PlookupOperator::In => StatementView::PlookupIdentity(start, l, r),
                                PlookupOperator::Is => StatementView::PermutationIdentity(
                                    start,
                                    l,
                                    r,
                                ),
                            },
                        ),
                    )
                }
            },
        }
    }

    /// The state after the elements of an instruction's body, in order.
    pub open spec fn body_elements(
        self,
        start: usize,
        flag: Seq<char>,
        substitution: Seq<(Seq<char>, Seq<char>)>,
        body: Seq<InstructionBodyElementView>,
    ) -> Result<ConverterView, CompileError>
        decreases body.len(),
    {
        if body.len() == 0 {
            Ok(self)
        } else {
            match self.body_elements(start, flag, substitution, body.drop_last()) {
                Err(e) => Err(e),
                Ok(s) => s.body_element(start, flag, substitution, body.last()),
            }
        }
    }

    /// The state after the declaration of an instruction: its flag, a column for each
    /// literal parameter, what its body contributes, and the instruction itself. A name
    /// that is already declared is rejected.
    pub open spec fn define_instruction(
        self,
        start: usize,
        name: Seq<char>,
        params: Seq<InstructionParamView>,
        body: Seq<InstructionBodyElementView>,
    ) -> Result<ConverterView, CompileError> {
        if has_key(self.instructions, name) {
            Err(CompileError::Shape)
        } else {
            let flag = instruction_flag_name(name);
            let s = self.create_witness_fixed_pair(start, flag).create_witness_fixed_pairs(
                start,
                literal_columns(name, params),
            );
            match s.body_elements(start, flag, literal_substitution(name, params), body) {
                Err(e) => Err(e),
                Ok(t) => Ok(
                    ConverterView {
                        instructions: insert_entry(
                            t.instructions,
                            name,
                            InstructionView { params },
                        ),
                        ..t
                    },
                ),
            }
        }
    }
}

impl ASMPILConverter {
    /// Declares a register; see [`ConverterView::declare_register`].
    pub fn handle_register_declaration(
        &mut self,
        flags: Option<RegisterFlag>,
        name: &str,
        start: usize,
    ) -> (r: Result<(), CompileError>)
        ensures
            stepped(r, final(self).deep_view()) == old(self).deep_view().declare_register(
                start,
                name@,
                flags,
            ),
            old(self).deep_view().wf() && r is Ok ==> final(self).deep_view().wf(),
            r is Err ==> final(self).deep_view() == old(self).deep_view(),
    {
        let name = String::from_str(name);
        let ghost before = self.deep_view();
        if find_key(&self.registers, &name) < self.registers.len() {
            return Err(CompileError::Shape);
        }
        let mut conditioned_updates: Vec<(Expression, Expression)> = Vec::new();
        let mut default_update: Option<Expression> = None;
        let mut is_assignment = false;
        assert(conditioned_updates.deep_view() =~= seq![]);
        match flags {
            Some(RegisterFlag::IsPC) => {
                if self.pc_name.is_some() {
                    return Err(CompileError::Shape);
                }
                self.pc_name = Some(name.clone());
                let pair = (name.clone(), String::from_str("line"));
                let ghost lookup = self.line_lookup;
                self.line_lookup.push(pair);
                proof {
                    lemma_deep_view_push(lookup, self.line_lookup, pair);
                }
                self.emit(
                    Statement::PolynomialIdentity(
                        start,
                        build_mul(direct_reference("first_step"), direct_reference(name.as_str())),
                    ),
                );
                conditioned_updates.push(
                    (next_reference("first_step"), build_number(Number::from_u64(0))),
                );
                assert(conditioned_updates.deep_view() =~= seq![seed_update()]);
                default_update = Some(
                    build_add(direct_reference(name.as_str()), build_number(Number::from_u64(1))),
                );
            },
            Some(RegisterFlag::IsAssignment) => {
                is_assignment = true;
            },
            None => {
                self.emit(
                    Statement::PolynomialIdentity(
                        start,
                        build_mul(direct_reference("first_step"), direct_reference(name.as_str())),
                    ),
                );
                conditioned_updates.push(
                    (next_reference("first_step"), build_number(Number::from_u64(0))),
                );
                let assignment_regs = self.assignment_registers();
                let ghost base = self.deep_view();
                let ghost assign = before.assignment_registers();
                let ghost flags_all = before.write_flag_names(name@);
                let ghost updates_all = before.write_updates(name@);
                let mut i: usize = 0;
                proof {
                    lemma_create_pairs_empty(base, start);
                }
                while i < assignment_regs.len()
                    invariant
                        i <= assignment_regs.len(),
                        assignment_regs.deep_view() == assign,
                        assign == before.assignment_registers(),
                        flags_all == before.write_flag_names(name@),
                        updates_all == before.write_updates(name@),
                        self.deep_view() == base.create_witness_fixed_pairs(
                            start,
                            flags_all.take(i as int),
                        ),
                        conditioned_updates.deep_view() == seq![seed_update()] + updates_all.take(
                            i as int,
                        ),
                    decreases assignment_regs.len() - i,
                {
                    let reg = &assignment_regs[i];
                    let write_flag = make_write_flag_name(reg, &name);
                    self.create_witness_fixed_pair(start, &write_flag);
                    let ghost updates = conditioned_updates;
                    let update = (
                        direct_reference(write_flag.as_str()),
                        direct_reference(reg.as_str()),
                    );
                    conditioned_updates.push(update);
                    proof {
                        lemma_deep_view_push(updates, conditioned_updates, update);
                        assert(flags_all.take(i + 1) =~= flags_all.take(i as int).push(
                            flags_all[i as int],
                        ));
                        lemma_create_pairs_push(
                            base,
                            start,
                            flags_all.take(i as int),
                            flags_all[i as int],
                        );
                    }
                    i += 1;
                }
                proof {
                    assert(flags_all.take(i as int) =~= flags_all);
                    assert(updates_all.take(i as int) =~= updates_all);
                }
                default_update = Some(direct_reference(name.as_str()));
            },
        }
        let register = Register { conditioned_updates, default_update, is_assignment };
        insert_sorted(&mut self.registers, name.clone(), register);
        self.emit(witness_column(start, name, None));
        proof {
            if before.wf() {
                lemma_declare_register_wf(before, start, name@, flags);
            }
        }
        Ok(())
    }

    /// Appends a conditioned update to a declared register.
    fn add_conditioned_update(
        &mut self,
        register: &String,
        condition: Expression,
        value: Expression,
    ) -> (r: Result<(), CompileError>)
        ensures
            stepped(r, final(self).deep_view()) == old(self).deep_view().add_conditioned_update(
                register@,
                condition.deep_view(),
                value.deep_view(),
            ),
    {
        let i = find_key(&self.registers, register);
        if i < self.registers.len() {
            let ghost before = self.deep_view();
            let ghost updates = self.registers[i as int].1.conditioned_updates;
            let update = (condition, value);
            self.registers[i].1.conditioned_updates.push(update);
            proof {
                lemma_deep_view_push(
                    updates,
                    self.registers[i as int].1.conditioned_updates,
                    update,
                );
                let expected = before.add_conditioned_update(
                    register@,
                    condition.deep_view(),
                    value.deep_view(),
                )->Ok_0;
                assert(self.deep_view().registers =~= expected.registers);
            }
            Ok(())
        } else {
            Err(CompileError::Name)
        }
    }

    /// Handles one element of an instruction's body.
    fn handle_body_element(
        &mut self,
        start: usize,
        flag: &String,
        substitutions: &Vec<(String, String)>,
        element: &InstructionBodyElement,
    ) -> (r: Result<(), CompileError>)
        ensures
            stepped(r, final(self).deep_view()) == old(self).deep_view().body_element(
                start,
                flag@,
                substitutions.deep_view(),
                element.deep_view(),
            ),
    {
        match element {
            InstructionBodyElement::Expression(expr) => {
                let expr = substitute(expr, substitutions);
                match extract_update(expr) {
                    Err(e) => Err(e),
                    Ok((Some(var), value)) => self.add_conditioned_update(
                        &var,
                        direct_reference(flag.as_str()),
                        value,
                    ),
                    Ok((None, rest)) => {
                        self.emit(
                            Statement::PolynomialIdentity(
                                0,
                                build_mul(direct_reference(flag.as_str()), rest),
                            ),
                        );
                        Ok(())
                    },
                }
            },
            InstructionBodyElement::PlookupIdentity(left, op, right) => {
                if left.selector.is_some() {
                    return Err(CompileError::Shape);
                }
                let left = SelectedExpressions {
                    selector: Some(direct_reference(flag.as_str())),
                    expressions: substitute_vec(&left.expressions, substitutions),
                };
                let right = substitute_selected_exprs(right, substitutions);
                self.emit(
                    match op {
                        PlookupOperator::In => Statement::PlookupIdentity(start, left, right),
                        PlookupOperator::Is => Statement::PermutationIdentity(start, left, right),
                    },
                );
                Ok(())
            },
        }
    }

    /// Declares an instruction; see [`ConverterView::define_instruction`].
    pub fn handle_instruction_def(
        &mut self,
        start: usize,
        body: Vec<InstructionBodyElement>,
        name: String,
        params: Vec<InstructionParam>,
    ) -> (r: Result<(), CompileError>)
        ensures
            stepped(r, final(self).deep_view()) == old(self).deep_view().define_instruction(
                start,
                name@,
                params.deep_view(),
                body.deep_view(),
            ),
            old(self).deep_view().wf() && r is Ok ==> final(self).deep_view().wf(),
            r is Err ==> final(self).deep_view() == old(self).deep_view(),
    {
        let ghost before = self.deep_view();
        if find_key(&self.instructions, &name) < self.instructions.len() {
            return Err(CompileError::Shape);
        }
        let snapshot = self.duplicate();
        let instruction_flag = make_instruction_flag_name(&name);
        self.create_witness_fixed_pair(start, &instruction_flag);
        let ghost base = self.deep_view();
        let ghost params_view = params.deep_view();

        let mut substitutions: Vec<(String, String)> = Vec::new();
        let mut i: usize = 0;
        proof {
            lemma_create_pairs_empty(base, start);
        }
        while i < params.len()
            invariant
                i <= params.len(),
                params_view == params.deep_view(),
                self.deep_view() == base.create_witness_fixed_pairs(
                    start,
                    literal_columns(name@, params_view.take(i as int)),
                ),
                substitutions.deep_view() == literal_substitution(
                    name@,
                    params_view.take(i as int),
                ),
            decreases params.len() - i,
        {
            let p = &params[i];
            proof {
                assert(params_view.take(i + 1).drop_last() =~= params_view.take(i as int));
            }
            if p.assignment_reg.0.is_none() && p.assignment_reg.1.is_none() {
                let param_col_name = make_param_column_name(&name, &p.name);
                self.create_witness_fixed_pair(start, &param_col_name);
                let ghost subs = substitutions;
                let pair = (p.name.clone(), param_col_name);
                substitutions.push(pair);
                proof {
                    lemma_deep_view_push(subs, substitutions, pair);
                    assert(literal_columns(name@, params_view.take(i + 1)) =~= literal_columns(
                        name@,
                        params_view.take(i as int),
                    ).push(param_column_name(name@, p.name@)));
                    lemma_create_pairs_push(
                        base,
                        start,
                        literal_columns(name@, params_view.take(i as int)),
                        param_column_name(name@, p.name@),
                    );
                }
            }
            i += 1;
        }
        proof {
            assert(params_view.take(i as int) =~= params_view);
        }
        let ghost prepared = self.deep_view();
        let ghost subst = substitutions.deep_view();
        let ghost body_view = body.deep_view();
        let mut k: usize = 0;
        while k < body.len()
            invariant
                k <= body.len(),
                body_view == body.deep_view(),
                snapshot.deep_view() == old(self).deep_view(),
                subst == substitutions.deep_view(),
                before == old(self).deep_view(),
                !has_key(before.instructions, name@),
                subst == literal_substitution(name@, params.deep_view()),
                prepared == before.create_witness_fixed_pair(
                    start,
                    instruction_flag_name(name@),
                ).create_witness_fixed_pairs(start, literal_columns(name@, params.deep_view())),
                instruction_flag@ == instruction_flag_name(name@),
                prepared.body_elements(start, instruction_flag@, subst, body_view.take(k as int))
                    == Ok::<ConverterView, CompileError>(self.deep_view()),
            decreases body.len() - k,
        {
            proof {
                assert(body_view.take(k + 1).drop_last() =~= body_view.take(k as int));
            }
            match self.handle_body_element(start, &instruction_flag, &substitutions, &body[k]) {
                Err(e) => {
                    proof {
                        lemma_body_elements_error(
                            prepared,
                            start,
                            instruction_flag@,
                            subst,
                            body_view,
                            k + 1,
                        );
                    }
                    *self = snapshot;
                    return Err(e);
                },
                Ok(()) => {},
            }
            k += 1;
        }
        proof {
            assert(body_view.take(k as int) =~= body_view);
        }
        let instr = Instruction { params };
        insert_sorted(&mut self.instructions, name, instr);
        proof {
            if before.wf() {
                lemma_define_instruction_wf(before, start, name@, params.deep_view(), body_view);
            }
        }
        Ok(())
    }
}

/// A body that fails after some of its elements fails as a whole, with the same error.
pub proof fn lemma_body_elements_error(
    s: ConverterView,
    start: usize,
    flag: Seq<char>,
    substitution: Seq<(Seq<char>, Seq<char>)>,
    body: Seq<InstructionBodyElementView>,
    n: int,
)
    requires
        0 <= n <= body.len(),
        s.body_elements(start, flag, substitution, body.take(n)) is Err,
    ensures
        s.body_elements(start, flag, substitution, body) == s.body_elements(
            start,
            flag,
            substitution,
            body.take(n),
        ),
    decreases body.len() - n,
{
    if n == body.len() {
        assert(body.take(n) =~= body);
    } else {
        assert(body.take(n + 1).drop_last() =~= body.take(n));
        lemma_body_elements_error(s, start, flag, substitution, body, n + 1);
    }
}

} // verus!
