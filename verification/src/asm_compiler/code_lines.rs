//! Lowering of the statements of a program to code lines.

use crate::asm_compiler::affine::affine_terms;
use crate::asm_compiler::builder::{direct_reference, direct_reference_view};
use crate::asm_compiler::error::{stepped, CompileError};
use crate::asm_compiler::laws::{lemma_instruction_call_wf, lemma_push_line_wf};
use crate::asm_compiler::state::{
    ASMPILConverter, AffineExpressionComponent, AffineExpressionComponentView, CodeLine,
    CodeLineView, ConverterView,
};
use crate::number::Number;
use crate::ordered::{
    find_key, has_key, insert_entry, insert_sorted, key_index, set_entry, set_sorted,
};
use crate::parser::asm_ast::{InstructionParam, InstructionParamView};
use crate::parser::ast::{lemma_deep_view_push, Expression, ExpressionView};
use crate::text::same_name;
use vstd::prelude::*;
use vstd::string::*;

verus! {

/// What the arguments of an instruction call have bound so far.
pub struct LineParts {
    pub value: Seq<(Seq<char>, Seq<(int, AffineExpressionComponentView)>)>,
    pub literal_args: Seq<Option<Seq<char>>>,
    pub write_regs: Seq<(Seq<char>, Seq<Seq<char>>)>,
}

/// The code line that does nothing.
pub open spec fn empty_line() -> CodeLineView {
    CodeLineView {
        write_regs: seq![],
        value: seq![],
        label: None,
        instruction: None,
        instruction_literal_args: seq![],
    }
}

/// What one argument adds to a line. An argument of an input parameter is read as an
/// affine value into the parameter's assignment register, in place of what an earlier
/// argument read into it. An argument of an output
/// parameter names the register that the assignment register is written to. An argument
/// of a label parameter names the label.
pub open spec fn bind_argument(
    parts: LineParts,
    p: InstructionParamView,
    a: ExpressionView,
) -> Result<LineParts, CompileError> {
    match p.assignment_reg.0 {
        Some(binding) => match binding {
            None => Err(CompileError::Shape),
            Some(reg) => match affine_terms(a) {
                Err(e) => Err(e),
                Ok(terms) => Ok(
                    LineParts {
                        value: set_entry(parts.value, reg, terms),
                        literal_args: parts.literal_args.push(None),
                        ..parts
                    },
                ),
            },
        },
        None => match p.assignment_reg.1 {
            Some(binding) => match binding {
                None => Err(CompileError::Shape),
                Some(reg) => match a {
                    ExpressionView::PolynomialReference(r) => if r.next || r.index is Some {
                        Err(CompileError::Arity)
                    } else if has_key(parts.write_regs, r.name) || has_key(
                        parts.write_regs,
                        reg,
                    ) {
                        Err(CompileError::Invariant)
                    } else {
                        Ok(
                            LineParts {
                                write_regs: insert_entry(parts.write_regs, reg, seq![r.name]),
                                literal_args: parts.literal_args.push(None),
                                ..parts
                            },
                        )
                    },
                    _ => Err(CompileError::Arity),
                },
            },
            None => if p.param_type == Some("label"@) {
                match a {
                    ExpressionView::PolynomialReference(r) => Ok(
                        LineParts {
                            literal_args: parts.literal_args.push(Some(r.name)),
                            ..parts
                        },
                    ),
                    _ => Err(CompileError::Arity),
                }
            } else {
                Err(CompileError::Shape)
            },
        },
    }
}

/// What the first `n` arguments add to an empty line, parameter by parameter.
pub open spec fn bind_arguments(
    params: Seq<InstructionParamView>,
    args: Seq<ExpressionView>,
    n: int,
) -> Result<LineParts, CompileError>
    decreases n,
{
    if n <= 0 {
        Ok(LineParts { value: seq![], literal_args: seq![], write_regs: seq![] })
    } else {
        match bind_arguments(params, args, n - 1) {
            Err(e) => Err(e),
            Ok(parts) => bind_argument(parts, params[n - 1], args[n - 1]),
        }
    }
}

/// Arguments that fail after the first `n` fail as a whole, with the same error.
pub proof fn lemma_bind_arguments_error(
    params: Seq<InstructionParamView>,
    args: Seq<ExpressionView>,
    n: int,
    m: int,
)
    requires
        0 <= n <= m,
        bind_arguments(params, args, n) is Err,
    ensures
        bind_arguments(params, args, m) == bind_arguments(params, args, n),
    decreases m - n,
{
    if n < m {
        lemma_bind_arguments_error(params, args, n, m - 1);
    }
}

/// The first `n` arguments leave one literal argument, or none, for each of them.
pub proof fn lemma_bind_arguments_count(
    params: Seq<InstructionParamView>,
    args: Seq<ExpressionView>,
    n: int,
)
    requires
        0 <= n,
        bind_arguments(params, args, n) is Ok,
    ensures
        bind_arguments(params, args, n)->Ok_0.literal_args.len() == n,
    decreases n,
{
    if n > 0 {
        lemma_bind_arguments_count(params, args, n - 1);
    }
}

impl ConverterView {
    /// The state with one more code line.
    pub open spec fn push_line(self, line: CodeLineView) -> ConverterView {
        ConverterView { code_lines: self.code_lines.push(line), ..self }
    }

    /// The state after a label: a line that only carries the label.
    pub open spec fn label(self, name: Seq<char>) -> ConverterView {
        self.push_line(CodeLineView { label: Some(name), ..empty_line() })
    }

    /// The state after an assignment of an affine value through an assignment register,
    /// which must be named, to at most one register.
    pub open spec fn assignment(
        self,
        write_regs: Seq<Seq<char>>,
        assign_reg: Option<Seq<char>>,
        value: ExpressionView,
    ) -> Result<ConverterView, CompileError> {
        if write_regs.len() > 1 {
            Err(CompileError::Shape)
        } else {
            match assign_reg {
                None => Err(CompileError::Shape),
                Some(a) => match affine_terms(value) {
                    Err(e) => Err(e),
                    Ok(terms) => Ok(
                        self.push_line(
                            CodeLineView {
                                write_regs: seq![(a, write_regs)],
                                value: seq![(a, terms)],
                                ..empty_line()
                            },
                        ),
                    ),
                },
            }
        }
    }

    /// The state after a call of a declared instruction with as many arguments as it has
    /// parameters.
    pub open spec fn instruction_call(
        self,
        name: Seq<char>,
        args: Seq<ExpressionView>,
    ) -> Result<ConverterView, CompileError> {
        let i = key_index(self.instructions, name);
        if i >= self.instructions.len() {
            Err(CompileError::Name)
        } else {
            let params = self.instructions[i].1.params;
            if params.len() != args.len() {
                Err(CompileError::Arity)
            } else {
                match bind_arguments(params, args, args.len() as int) {
                    Err(e) => Err(e),
                    Ok(parts) => Ok(
                        self.push_line(
                            CodeLineView {
                                write_regs: parts.write_regs,
                                value: parts.value,
                                label: None,
                                instruction: Some(name),
                                instruction_literal_args: parts.literal_args,
                            },
                        ),
                    ),
                }
            }
        }
    }

    /// The state after an assignment whose value is a call: the call of the instruction
    /// with the written register as one more argument. The instruction's last parameter
    /// must be an untyped output through the assignment register of the assignment.
    pub open spec fn functional_instruction(
        self,
        write_regs: Seq<Seq<char>>,
        assign_reg: Option<Seq<char>>,
        name: Seq<char>,
        args: Seq<ExpressionView>,
    ) -> Result<ConverterView, CompileError> {
        let i = key_index(self.instructions, name);
        if write_regs.len() != 1 {
            Err(CompileError::Invariant)
        } else if assign_reg is None {
            Err(CompileError::Shape)
        } else if i >= self.instructions.len() {
            Err(CompileError::Name)
        } else {
            let params = self.instructions[i].1.params;
            if params.len() != args.len() + 1 {
                Err(CompileError::Arity)
            } else if params.last().param_type is Some || params.last().assignment_reg.0 is Some
                || params.last().assignment_reg.1 != Some(assign_reg) {
                Err(CompileError::Invariant)
            } else {
                self.instruction_call(name, args.push(direct_reference_view(write_regs[0])))
            }
        }
    }
}

/// Whether an optional name is the given one.
fn optional_name_is(name: &Option<String>, expected: &str) -> (r: bool)
    ensures
        r == (name.deep_view() == Some(expected@)),
{
    match name {
        Some(n) => {
            let e = String::from_str(expected);
            same_name(n, &e)
        },
        None => false,
    }
}

/// Whether two optional names are the same.
fn same_optional_name(a: &Option<String>, b: &Option<String>) -> (r: bool)
    ensures
        r == (a.deep_view() == b.deep_view()),
{
    match (a, b) {
        (Some(x), Some(y)) => same_name(x, y),
        (None, None) => true,
        _ => false,
    }
}

impl ASMPILConverter {
    /// Adds a code line.
    fn push_line(&mut self, line: CodeLine)
        ensures
            final(self).deep_view() == old(self).deep_view().push_line(line.deep_view()),
    {
        let ghost before = self.code_lines;
        self.code_lines.push(line);
        proof {
            lemma_deep_view_push(before, self.code_lines, line);
        }
    }

    /// Handles a label; see [`ConverterView::label`].
    pub fn handle_label(&mut self, name: String)
        ensures
            final(self).deep_view() == old(self).deep_view().label(name@),
            old(self).deep_view().wf() ==> final(self).deep_view().wf(),
    {
        let line = CodeLine {
            write_regs: Vec::new(),
            value: Vec::new(),
            label: Some(name),
            instruction: None,
            instruction_literal_args: Vec::new(),
        };
        proof {
            let v = line.deep_view();
            let e = CodeLineView { label: Some(name@), ..empty_line() };
            assert(v.write_regs =~= e.write_regs);
            assert(v.value =~= e.value);
            assert(v.instruction_literal_args =~= e.instruction_literal_args);
            if old(self).deep_view().wf() {
                lemma_push_line_wf(old(self).deep_view(), e);
            }
        }
        self.push_line(line);
    }

    /// Handles an assignment; see [`ConverterView::assignment`].
    pub fn handle_assignment(
        &mut self,
        _start: usize,
        write_regs: Vec<String>,
        assign_reg: Option<String>,
        value: &Expression,
    ) -> (r: Result<(), CompileError>)
        ensures
            stepped(r, final(self).deep_view()) == old(self).deep_view().assignment(
                write_regs.deep_view(),
                assign_reg.deep_view(),
                value.deep_view(),
            ),
            old(self).deep_view().wf() && r is Ok ==> final(self).deep_view().wf(),
            r is Err ==> final(self).deep_view() == old(self).deep_view(),
    {
        if write_regs.len() > 1 {
            return Err(CompileError::Shape);
        }
        let assign_reg = match assign_reg {
            Some(a) => a,
            None => {
                return Err(CompileError::Shape);
            },
        };
        let terms = match self.process_assignment_value(value) {
            Ok(t) => t,
            Err(e) => {
                return Err(e);
            },
        };
        let mut line_write_regs: Vec<(String, Vec<String>)> = Vec::new();
        line_write_regs.push((assign_reg.clone(), write_regs));
        let mut line_value: Vec<(String, Vec<(Number, AffineExpressionComponent)>)> = Vec::new();
        line_value.push((assign_reg, terms));
        let line = CodeLine {
            write_regs: line_write_regs,
            value: line_value,
            label: None,
            instruction: None,
            instruction_literal_args: Vec::new(),
        };
        proof {
            let v = line.deep_view();
            let e = CodeLineView {
                write_regs: seq![(assign_reg@, write_regs.deep_view())],
                value: seq![(assign_reg@, terms.deep_view())],
                ..empty_line()
            };
            assert(v.write_regs =~= e.write_regs);
            assert(v.value =~= e.value);
            assert(v.instruction_literal_args =~= e.instruction_literal_args);
            if old(self).deep_view().wf() {
                lemma_push_line_wf(old(self).deep_view(), e);
            }
        }
        self.push_line(line);
        Ok(())
    }

    /// Handles an assignment whose value is a call; see
    /// [`ConverterView::functional_instruction`].
    pub fn handle_functional_instruction(
        &mut self,
        write_regs: Vec<String>,
        assign_reg: Option<String>,
        instr_name: String,
        args: Vec<Expression>,
    ) -> (r: Result<(), CompileError>)
        ensures
            stepped(r, final(self).deep_view()) == old(self).deep_view().functional_instruction(
                write_regs.deep_view(),
                assign_reg.deep_view(),
                instr_name@,
                args.deep_view(),
            ),
            old(self).deep_view().wf() && r is Ok ==> final(self).deep_view().wf(),
            r is Err ==> final(self).deep_view() == old(self).deep_view(),
    {
        if write_regs.len() != 1 {
            return Err(CompileError::Invariant);
        }
        if assign_reg.is_none() {
            return Err(CompileError::Shape);
        }
        let i = find_key(&self.instructions, &instr_name);
        if i >= self.instructions.len() {
            return Err(CompileError::Name);
        }
        let params = &self.instructions[i].1.params;
        proof {
            assert(params.deep_view().len() == params.len());
        }
        if args.len() == usize::MAX || params.len() != args.len() + 1 {
            return Err(CompileError::Arity);
        }
        let last_param = &params[params.len() - 1];
        let bound_as_output = match &last_param.assignment_reg.1 {
            Some(binding) => same_optional_name(binding, &assign_reg),
            None => false,
        };
        if last_param.param_type.is_some() || last_param.assignment_reg.0.is_some()
            || !bound_as_output {
            return Err(CompileError::Invariant);
        }
        let mut args = args;
        let ghost before = args;
        let target = direct_reference(write_regs[0].as_str());
        args.push(target);
        proof {
            lemma_deep_view_push(before, args, target);
        }
        self.handle_instruction(instr_name, args)
    }

    /// Binds one argument of a call; see [`bind_argument`].
    fn bind_argument(
        &self,
        value: &mut Vec<(String, Vec<(Number, AffineExpressionComponent)>)>,
        literal_args: &mut Vec<Option<String>>,
        write_regs: &mut Vec<(String, Vec<String>)>,
        p: &InstructionParam,
        a: &Expression,
    ) -> (r: Result<(), CompileError>)
        ensures
            stepped(
                r,
                LineParts {
                    value: final(value).deep_view(),
                    literal_args: final(literal_args).deep_view(),
                    write_regs: final(write_regs).deep_view(),
                },
            ) == bind_argument(
                LineParts {
                    value: old(value).deep_view(),
                    literal_args: old(literal_args).deep_view(),
                    write_regs: old(write_regs).deep_view(),
                },
                p.deep_view(),
                a.deep_view(),
            ),
    {
        let ghost literals = *literal_args;
        match &p.assignment_reg.0 {
            Some(binding) => {
                let reg = match binding {
                    Some(reg) => reg,
                    None => {
                        return Err(CompileError::Shape);
                    },
                };
                let terms = match self.process_assignment_value(a) {
                    Ok(t) => t,
                    Err(e) => {
                        return Err(e);
                    },
                };
                set_sorted(value, reg.clone(), terms);
                literal_args.push(None);
                proof {
                    lemma_deep_view_push(literals, *literal_args, None);
                }
                Ok(())
            },
            None => match &p.assignment_reg.1 {
                Some(binding) => {
                    let reg = match binding {
                        Some(reg) => reg,
                        None => {
                            return Err(CompileError::Shape);
                        },
                    };
                    match a {
                        Expression::PolynomialReference(r) => {
                            if r.next || r.index.is_some() {
                                return Err(CompileError::Arity);
                            }
                            if find_key(write_regs, &r.name) < write_regs.len() || find_key(
                                write_regs,
                                reg,
                            ) < write_regs.len() {
                                return Err(CompileError::Invariant);
                            }
                            let mut targets: Vec<String> = Vec::new();
                            targets.push(r.name.clone());
                            assert(targets.deep_view() =~= seq![r.name@]);
                            insert_sorted(write_regs, reg.clone(), targets);
                            literal_args.push(None);
                            proof {
                                lemma_deep_view_push(literals, *literal_args, None);
                            }
                            Ok(())
                        },
                        _ => Err(CompileError::Arity),
                    }
                },
                None => {
                    if optional_name_is(&p.param_type, "label") {
                        match a {
                            Expression::PolynomialReference(r) => {
                                let label = Some(r.name.clone());
                                literal_args.push(label);
                                proof {
                                    lemma_deep_view_push(literals, *literal_args, label);
                                }
                                Ok(())
                            },
                            _ => Err(CompileError::Arity),
                        }
                    } else {
                        Err(CompileError::Shape)
                    }
                },
            },
        }
    }

    /// Handles a call of an instruction; see [`ConverterView::instruction_call`].
    pub fn handle_instruction(&mut self, instr_name: String, args: Vec<Expression>) -> (r: Result<
        (),
        CompileError,
    >)
        ensures
            stepped(r, final(self).deep_view()) == old(self).deep_view().instruction_call(
                instr_name@,
                args.deep_view(),
            ),
            old(self).deep_view().wf() && r is Ok ==> final(self).deep_view().wf(),
            r is Err ==> final(self).deep_view() == old(self).deep_view(),
    {
        let ghost before = self.deep_view();
        let i = find_key(&self.instructions, &instr_name);
        if i >= self.instructions.len() {
            return Err(CompileError::Name);
        }
        let params = &self.instructions[i].1.params;
        if params.len() != args.len() {
            return Err(CompileError::Arity);
        }
        let ghost params_view = params.deep_view();
        let ghost args_view = args.deep_view();
        let mut value: Vec<(String, Vec<(Number, AffineExpressionComponent)>)> = Vec::new();
        let mut instruction_literal_args: Vec<Option<String>> = Vec::new();
        let mut write_regs: Vec<(String, Vec<String>)> = Vec::new();
        let mut k: usize = 0;
        proof {
            assert(value.deep_view() =~= seq![]);
            assert(instruction_literal_args.deep_view() =~= seq![]);
            assert(write_regs.deep_view() =~= seq![]);
        }
        while k < args.len()
            invariant
                k <= args.len(),
                params.len() == args.len(),
                params_view == params.deep_view(),
                args_view == args.deep_view(),
                self.deep_view() == before,
                before == old(self).deep_view(),
                i as int == key_index(before.instructions, instr_name@),
                i < before.instructions.len(),
                params_view == before.instructions[i as int].1.params,
                bind_arguments(params_view, args_view, k as int) == Ok::<LineParts, CompileError>(
                    LineParts {
                        value: value.deep_view(),
                        literal_args: instruction_literal_args.deep_view(),
                        write_regs: write_regs.deep_view(),
                    },
                ),
            decreases args.len() - k,
        {
            match self.bind_argument(
                &mut value,
                &mut instruction_literal_args,
                &mut write_regs,
                &params[k],
                &args[k],
            ) {
                Err(e) => {
                    proof {
                        lemma_bind_arguments_error(
                            params_view,
                            args_view,
                            k + 1,
                            args.len() as int,
                        );
                    }
                    return Err(e);
                },
                Ok(()) => {},
            }
            k += 1;
        }
        let line = CodeLine {
            write_regs,
            value,
            label: None,
            instruction: Some(instr_name),
            instruction_literal_args,
        };
        self.push_line(line);
        proof {
            if before.wf() {
                lemma_instruction_call_wf(before, instr_name@, args_view);
            }
        }
        Ok(())
    }
}

} // verus!
