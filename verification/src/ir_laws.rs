//! Laws of IR generation, stated over the model in [`crate::ir_gen`] that
//! the generator's contracts speak of.
//!
//! Generation only ever appends: a step, whether it succeeds or stops with
//! an error, keeps the instructions already emitted and the functions
//! already generated, and never turns the label counter back. Every operand that names an instruction names one emitted
//! before the instruction that uses it, and labels made from different
//! counter values differ.

use vstd::prelude::*;

use crate::ast::{SpecExpression, SpecFunctionDeclaration, SpecStatement, SpecTopLevel};
use crate::ir::{SpecIRFunction, SpecIRValue, SpecInstruction};
use crate::ir_gen::{
    decimal_text, digit_char, emit, gen_expression, gen_function, gen_program, gen_statement,
    gen_statements, gen_then_branch, label_text, Gen, GenState,
};

verus! {

/// `v` names no instruction at position `j` or later.
pub open spec fn refers_before(v: SpecIRValue, j: int) -> bool {
    match v {
        SpecIRValue::Instruction(k) => k < j,
        _ => true,
    }
}

/// Every operand of every instruction of `body` that names an instruction
/// names one that comes before it.
pub open spec fn body_well_formed(body: Seq<SpecInstruction>) -> bool {
    forall|j: int, k: int|
        0 <= j < body.len() && 0 <= k < body[j].operands.len() ==> refers_before(
            #[trigger] body[j].operands[k],
            j,
        )
}

/// `st1` is `st` after some generation steps within one function: the
/// instructions of `st` are still there, in place, perhaps followed by
/// more; the generated functions and the function's name, parameters and
/// return type are the same; the label counter has not gone back; and a
/// well-formed body stayed well formed.
pub open spec fn extends(st: GenState, st1: GenState) -> bool {
    &&& st.instructions.len() <= st1.instructions.len()
    &&& forall|j: int| 0 <= j < st.instructions.len() ==> #[trigger] st1.instructions[j] == st.instructions[j]
    &&& st1.functions == st.functions
    &&& st1.function_name == st.function_name
    &&& st1.parameters == st.parameters
    &&& st1.return_type == st.return_type
    &&& st.label_count <= st1.label_count
    &&& (body_well_formed(st.instructions) ==> body_well_formed(st1.instructions))
}

/// Whatever state a generation step ends in, by success or by an error,
/// extends `st`.
pub open spec fn outcome_extends<T>(st: GenState, r: Gen<T>) -> bool {
    match r {
        Gen::Done(_, st1) => extends(st, st1),
        Gen::Failed(_, st1) => extends(st, st1),
        Gen::Fault(_) => true,
    }
}

proof fn lemma_outcome_trans<T>(a: GenState, b: GenState, r: Gen<T>)
    requires
        extends(a, b),
        outcome_extends(b, r),
    ensures
        outcome_extends(a, r),
{
    match r {
        Gen::Done(_, c) => lemma_extends_trans(a, b, c),
        Gen::Failed(_, c) => lemma_extends_trans(a, b, c),
        Gen::Fault(_) => {},
    }
}

proof fn lemma_extends_trans(a: GenState, b: GenState, c: GenState)
    requires
        extends(a, b),
        extends(b, c),
    ensures
        extends(a, c),
{
    assert forall|j: int| 0 <= j < a.instructions.len() implies #[trigger] c.instructions[j] == a.instructions[j] by {
        assert(c.instructions[j] == b.instructions[j]);
    }
}

/// A state with the same instructions, functions, function name, parameters
/// and return type, and a label counter no lower.
proof fn lemma_extends_same_body(st: GenState, st1: GenState)
    requires
        st1.instructions == st.instructions,
        st1.functions == st.functions,
        st1.function_name == st.function_name,
        st1.parameters == st.parameters,
        st1.return_type == st.return_type,
        st.label_count <= st1.label_count,
    ensures
        extends(st, st1),
{
}

/// Appending an instruction whose operands name only instructions already
/// emitted extends the state.
#[verifier::spinoff_prover]
proof fn lemma_emit(st: GenState, i: SpecInstruction)
    requires
        forall|k: int| 0 <= k < i.operands.len() ==> refers_before(#[trigger] i.operands[k], st.instructions.len() as int),
    ensures
        extends(st, emit(st, i)),
{
    let b = st.instructions;
    let b1 = emit(st, i).instructions;
    assert(b1 == b.push(i));
    assert forall|j: int| 0 <= j < b.len() implies #[trigger] b1[j] == b[j] by {}
    if body_well_formed(b) {
        assert forall|j: int, k: int| 0 <= j < b1.len() && 0 <= k < b1[j].operands.len() implies refers_before(
            #[trigger] b1[j].operands[k],
            j,
        ) by {
            if j < b.len() {
                assert(b1[j] == b[j]);
                assert(refers_before(b[j].operands[k], j));
            } else {
                assert(b1[j] == i);
                assert(refers_before(i.operands[k], st.instructions.len() as int));
            }
        }
    }
}

/// Lowering an expression extends the state, whether it succeeds or stops
/// with an error, and the operand it yields names only instructions
/// emitted by then.
pub proof fn lemma_expression_extends(st: GenState, e: SpecExpression)
    ensures
        outcome_extends(st, gen_expression(st, e)),
        gen_expression(st, e) matches Gen::Done(v, st1) ==> refers_before(v, st1.instructions.len() as int),
    decreases e,
{
    match e {
        SpecExpression::BinaryOp { op, left, right } => {
            lemma_expression_extends(st, *left);
            if let Gen::Done(lv, st1) = gen_expression(st, *left) {
                lemma_expression_extends(st1, *right);
                if let Gen::Done(rv, st2) = gen_expression(st1, *right) {
                    lemma_extends_trans(st, st1, st2);
                    if let Some(oc) = crate::ir_gen::opcode_of(op) {
                        let i = SpecInstruction {
                            opcode: oc,
                            result_type: crate::ir::IRType::I32,
                            operands: seq![lv, rv],
                        };
                        assert(refers_before(i.operands[0], st2.instructions.len() as int));
                        assert(refers_before(i.operands[1], st2.instructions.len() as int));
                        lemma_emit(st2, i);
                        lemma_extends_trans(st, st2, emit(st2, i));
                    }
                }
            }
        },
        _ => {
            lemma_extends_same_body(st, st);
        },
    }
}

/// Lowering a statement extends the state, whether it succeeds or stops
/// with an error: the instructions before it stay in place, and every
/// operand that names an instruction names an earlier one.
pub proof fn lemma_statement_extends(st: GenState, s: SpecStatement)
    ensures
        outcome_extends(st, gen_statement(st, s)),
    decreases s, 0int,
{
    match s {
        SpecStatement::Declaration { data_type, variable_name, expression } => {
            if let Some(t) = crate::ir_gen::ir_type_of(data_type) {
                let st1 = GenState { variables: st.variables.insert(variable_name, t), ..st };
                lemma_extends_same_body(st, st1);
                lemma_expression_extends(st1, expression);
                if let Gen::Done(v, st2) = gen_expression(st1, expression) {
                    lemma_extends_trans(st, st1, st2);
                    let i = crate::ir_gen::store_instruction(variable_name, v);
                    assert(refers_before(i.operands[0], st2.instructions.len() as int));
                    assert(refers_before(i.operands[1], st2.instructions.len() as int));
                    lemma_emit(st2, i);
                    lemma_extends_trans(st, st2, emit(st2, i));
                }
            }
        },
        SpecStatement::Assignment { variable_name, expression } => {
            lemma_expression_extends(st, expression);
            if let Gen::Done(v, st2) = gen_expression(st, expression) {
                let i = crate::ir_gen::store_instruction(variable_name, v);
                assert(refers_before(i.operands[0], st2.instructions.len() as int));
                assert(refers_before(i.operands[1], st2.instructions.len() as int));
                lemma_emit(st2, i);
                lemma_extends_trans(st, st2, emit(st2, i));
            }
        },
        SpecStatement::Increment { variable_name } => {
            lemma_step_extends(st, variable_name, crate::ir::IROpcode::Add);
        },
        SpecStatement::Decrement { variable_name } => {
            lemma_step_extends(st, variable_name, crate::ir::IROpcode::Sub);
        },
        SpecStatement::If { condition, then_branch, elif_branches, else_branch } => {
            lemma_expression_extends(st, condition);
            if let Gen::Done(cv, st1) = gen_expression(st, condition) {
                if st1.label_count + 3 <= usize::MAX {
                    let n = st1.label_count;
                    let st1a = GenState { label_count: n + 3, ..st1 };
                    lemma_extends_same_body(st1, st1a);
                    let i = SpecInstruction {
                        opcode: crate::ir::IROpcode::JumpIfFalse,
                        result_type: crate::ir::IRType::Void,
                        operands: seq![cv, SpecIRValue::GlobalVariable(label_text(n + 2))],
                    };
                    assert(refers_before(i.operands[0], st1a.instructions.len() as int));
                    assert(refers_before(i.operands[1], st1a.instructions.len() as int));
                    lemma_emit(st1a, i);
                    let st2 = emit(st1a, i);
                    lemma_then_branch_extends(st2, then_branch, n);
                    lemma_extends_trans(st, st1, st1a);
                    lemma_extends_trans(st, st1a, st2);
                    if let Gen::Done(_, st3) = gen_then_branch(st2, then_branch, n) {
                        lemma_extends_trans(st, st2, st3);
                    }
                }
            }
        },
        SpecStatement::Return { expression } => {
            lemma_expression_extends(st, expression);
            if let Gen::Done(v, st2) = gen_expression(st, expression) {
                let i = SpecInstruction {
                    opcode: crate::ir::IROpcode::Return,
                    result_type: crate::ir::IRType::Void,
                    operands: seq![v],
                };
                assert(refers_before(i.operands[0], st2.instructions.len() as int));
                lemma_emit(st2, i);
                lemma_extends_trans(st, st2, emit(st2, i));
            }
        },
        _ => {
            lemma_extends_same_body(st, st);
        },
    }
}

/// `++` and `--` extend the state.
proof fn lemma_step_extends(st: GenState, name: Seq<char>, opcode: crate::ir::IROpcode)
    ensures
        outcome_extends(st, crate::ir_gen::gen_step(st, name, opcode)),
{
    if st.variables.contains_key(name) {
        let t = st.variables[name];
        let load = SpecInstruction {
            opcode: crate::ir::IROpcode::Load,
            result_type: t,
            operands: seq![SpecIRValue::GlobalVariable(name)],
        };
        assert(refers_before(load.operands[0], st.instructions.len() as int));
        lemma_emit(st, load);
        let st1 = emit(st, load);
        let step = SpecInstruction {
            opcode,
            result_type: t,
            operands: seq![
                SpecIRValue::Instruction(st.instructions.len()),
                SpecIRValue::Constant(crate::ir::IRConstant::I32(1)),
            ],
        };
        assert(refers_before(step.operands[0], st1.instructions.len() as int));
        assert(refers_before(step.operands[1], st1.instructions.len() as int));
        lemma_emit(st1, step);
        let st2 = emit(st1, step);
        let store = crate::ir_gen::store_instruction(name, SpecIRValue::Instruction(st1.instructions.len()));
        assert(refers_before(store.operands[0], st2.instructions.len() as int));
        assert(refers_before(store.operands[1], st2.instructions.len() as int));
        lemma_emit(st2, store);
        lemma_extends_trans(st, st1, st2);
        lemma_extends_trans(st, st2, emit(st2, store));
    }
}

/// The then branch of an `if` extends the state.
pub proof fn lemma_then_branch_extends(st: GenState, then_branch: Seq<SpecStatement>, n: nat)
    ensures
        outcome_extends(st, gen_then_branch(st, then_branch, n)),
    decreases then_branch, then_branch.len() + 1,
{
    lemma_statements_extends(st, then_branch, 0);
    if let Gen::Done(_, st1) = gen_statements(st, then_branch, 0) {
        let i = SpecInstruction {
            opcode: crate::ir::IROpcode::Jump,
            result_type: crate::ir::IRType::Void,
            operands: seq![SpecIRValue::GlobalVariable(label_text(n + 3))],
        };
        assert(refers_before(i.operands[0], st1.instructions.len() as int));
        lemma_emit(st1, i);
        lemma_extends_trans(st, st1, emit(st1, i));
    }
}

/// Lowering statements in order extends the state.
pub proof fn lemma_statements_extends(st: GenState, ss: Seq<SpecStatement>, i: int)
    ensures
        outcome_extends(st, gen_statements(st, ss, i)),
    decreases ss, ss.len() - i,
{
    if 0 <= i < ss.len() {
        lemma_statement_extends(st, ss[i]);
        if let Gen::Done(_, st1) = gen_statement(st, ss[i]) {
            lemma_statements_extends(st1, ss, i + 1);
            if let Gen::Done(_, st2) = gen_statements(st1, ss, i + 1) {
                lemma_extends_trans(st, st1, st2);
            }
        }
    } else {
        lemma_extends_same_body(st, st);
    }
}

/// The function a top-level item declares.
pub open spec fn declared_function(t: SpecTopLevel) -> SpecFunctionDeclaration {
    match t {
        SpecTopLevel::Function(f) => f,
    }
}

/// The IR return type of a function declaration: its declared type mapped,
/// or `Void` when it declares none.
pub open spec fn ir_return_type(f: SpecFunctionDeclaration) -> crate::ir::IRType {
    match f.return_type {
        Some(d) => crate::ir_gen::ir_type_of(d)->Some_0,
        None => crate::ir::IRType::Void,
    }
}

/// The IR function generated from `f` is `g`: same name, the parameters
/// with their types mapped, the mapped return type, and a well-formed body.
pub open spec fn generated_as(g: SpecIRFunction, f: SpecFunctionDeclaration) -> bool {
    &&& g.name == f.name
    &&& g.parameters == crate::ir_gen::ir_parameters(f.parameters)
    &&& g.return_type == ir_return_type(f)
    &&& body_well_formed(g.body)
}

/// Lowering a function appends one function, generated as the declaration
/// says (name, mapped parameters and return type, well-formed body), to the
/// functions generated before, which stay as they were.
pub proof fn lemma_function_appends(st: GenState, f: SpecFunctionDeclaration)
    ensures
        match gen_function(st, f) {
            Gen::Done(_, st1) => {
                &&& st1.functions.len() == st.functions.len() + 1
                &&& forall|j: int| 0 <= j < st.functions.len() ==> #[trigger] st1.functions[j] == st.functions[j]
                &&& generated_as(st1.functions.last(), f)
                &&& st.label_count <= st1.label_count
            },
            _ => true,
        },
{
    if crate::ir_gen::first_unmapped(f.parameters) is None {
        let return_type = match f.return_type {
            Some(d) => crate::ir_gen::ir_type_of(d),
            None => Some(crate::ir::IRType::Void),
        };
        if let Some(rt) = return_type {
            let ps = crate::ir_gen::ir_parameters(f.parameters);
            let st1 = GenState {
                variables: crate::ir_gen::parameter_variables(ps),
                instructions: Seq::empty(),
                function_name: f.name,
                parameters: ps,
                return_type: rt,
                ..st
            };
            assert(body_well_formed(st1.instructions));
            lemma_statements_extends(st1, f.body, 0);
            if let Gen::Done(_, st2) = gen_statements(st1, f.body, 0) {
                let g = SpecIRFunction {
                    name: st2.function_name,
                    parameters: st2.parameters,
                    return_type: st2.return_type,
                    body: st2.instructions,
                };
                assert(gen_function(st, f) == crate::ir_gen::function_done(gen_statements(st1, f.body, 0)));
                assert(st2.function_name == f.name);
                let fs = st2.functions.push(g);
                assert(fs.last() == g);
                assert forall|j: int| 0 <= j < st.functions.len() implies #[trigger] fs[j] == st.functions[j] by {}
            }
        }
    }
}

/// The functions generated from the top-level items of `ts`, from the
/// `i`-th on, in the state `st`: the functions of `st` first, unchanged,
/// then one per item, in order, each generated as the item declares it.
pub open spec fn generated_from(st: GenState, ts: Seq<SpecTopLevel>, i: int, fs: Seq<SpecIRFunction>) -> bool {
    &&& fs.len() == st.functions.len() + ts.len() - i
    &&& forall|j: int| 0 <= j < st.functions.len() ==> #[trigger] fs[j] == st.functions[j]
    &&& forall|k: int|
        0 <= k < ts.len() - i ==> generated_as(#[trigger] fs[st.functions.len() + k], declared_function(ts[i + k]))
}

/// Generating IR for a program keeps the functions generated before and
/// adds, after them, one function for each function the program declares,
/// in the order of declaration, under the declared name, with the declared
/// parameters and return type mapped to IR types (`Void` where none is
/// declared); every operand of an added function's body that names an
/// instruction names an earlier one of the same body.
pub proof fn law_program_functions(st: GenState, ts: Seq<SpecTopLevel>, i: int)
    requires
        0 <= i <= ts.len(),
    ensures
        match gen_program(st, ts, i) {
            Gen::Done(fs, _) => generated_from(st, ts, i, fs),
            _ => true,
        },
    decreases ts.len() - i,
{
    if i < ts.len() {
        match ts[i] {
            SpecTopLevel::Function(f) => {
                lemma_function_appends(st, f);
                if let Gen::Done(_, st1) = gen_function(st, f) {
                    law_program_functions(st1, ts, i + 1);
                    if let Gen::Done(fs, _) = gen_program(st1, ts, i + 1) {
                        let n = st.functions.len() as int;
                        assert forall|j: int| 0 <= j < n implies #[trigger] fs[j] == st.functions[j] by {
                            assert(fs[j] == st1.functions[j]);
                        }
                        assert forall|k: int| 0 <= k < ts.len() - i implies generated_as(
                            #[trigger] fs[n + k],
                            declared_function(ts[i + k]),
                        ) by {
                            if k == 0 {
                                assert(fs[n] == st1.functions[n]);
                                assert(st1.functions[n] == st1.functions.last());
                            } else {
                                assert(fs[st1.functions.len() + (k - 1)] == fs[n + k]);
                                assert(ts[(i + 1) + (k - 1)] == ts[i + k]);
                            }
                        }
                    }
                }
            },
        }
    }
}

/// A numeral has at least one digit, and at least two from ten on.
proof fn lemma_decimal_text_len(n: nat)
    ensures
        decimal_text(n).len() >= 1,
        n >= 10 ==> decimal_text(n).len() >= 2,
    decreases n,
{
    if n >= 10 {
        lemma_decimal_text_len(n / 10);
    }
}

/// Digits of different values are different characters.
proof fn lemma_digit_char_injective(d: nat, e: nat)
    requires
        d < 10,
        e < 10,
        digit_char(d) == digit_char(e),
    ensures
        d == e,
{
    assert(digit_char(d) as int == 48 + d);
    assert(digit_char(e) as int == 48 + e);
}

/// Different numbers have different numerals.
pub proof fn lemma_decimal_text_injective(n: nat, m: nat)
    requires
        decimal_text(n) == decimal_text(m),
    ensures
        n == m,
    decreases n,
{
    lemma_decimal_text_len(n);
    lemma_decimal_text_len(m);
    if n < 10 && m < 10 {
        assert(decimal_text(n)[0] == digit_char(n));
        assert(decimal_text(m)[0] == digit_char(m));
        lemma_digit_char_injective(n, m);
    } else if n >= 10 && m >= 10 {
        let a = decimal_text(n);
        assert(a.last() == digit_char(n % 10));
        assert(decimal_text(m).last() == digit_char(m % 10));
        lemma_digit_char_injective(n % 10, m % 10);
        assert(a.drop_last() == decimal_text(n / 10));
        assert(decimal_text(m).drop_last() == decimal_text(m / 10));
        lemma_decimal_text_injective(n / 10, m / 10);
    } else {
        lemma_decimal_text_len(n / 10);
        lemma_decimal_text_len(m / 10);
    }
}

/// Labels made from different counts are different names: each label the
/// generator makes is new.
pub proof fn law_labels_distinct(n: nat, m: nat)
    requires
        n != m,
    ensures
        label_text(n) != label_text(m),
{
    if label_text(n) == label_text(m) {
        assert(label_text(n).drop_first() == decimal_text(n));
        assert(label_text(m).drop_first() == decimal_text(m));
        lemma_decimal_text_injective(n, m);
    }
}

/// The `Store` of `v` into the global variable `name`, spelled out.
pub open spec fn store_of(name: Seq<char>, v: SpecIRValue) -> SpecInstruction {
    SpecInstruction {
        opcode: crate::ir::IROpcode::Store,
        result_type: crate::ir::IRType::Void,
        operands: seq![SpecIRValue::GlobalVariable(name), v],
    }
}

/// Lowering an expression leaves the variables as they are.
proof fn lemma_expression_keeps_variables(st: GenState, e: SpecExpression)
    ensures
        gen_expression(st, e) matches Gen::Done(_, st1) ==> st1.variables == st.variables,
    decreases e,
{
    if let SpecExpression::BinaryOp { op, left, right } = e {
        lemma_expression_keeps_variables(st, *left);
        if let Gen::Done(_, st1) = gen_expression(st, *left) {
            lemma_expression_keeps_variables(st1, *right);
        }
    }
}

/// Lowering an assignment `name = e` that succeeds lowers `e` and then
/// stores the operand that stands for its value into the global `name`:
/// the body is the body after `e`, followed by that one `Store`.
pub proof fn law_assignment_stores(st: GenState, name: Seq<char>, e: SpecExpression)
    ensures
        gen_statement(st, SpecStatement::Assignment { variable_name: name, expression: e }) matches Gen::Done(_, st1)
            ==> gen_expression(st, e) matches Gen::Done(v, st2)
                && st1.instructions == st2.instructions.push(store_of(name, v))
                && st1.instructions.last() == store_of(name, v),
{
}

/// Lowering a declaration `d name = e` that succeeds records `name` with
/// the IR type of `d` (`u8` as `U8`, `i32` as `I32`), lowers `e`, and
/// stores the operand that stands for its value into the global `name`.
pub proof fn law_declaration_records_and_stores(
    st: GenState,
    d: crate::ast::DataType,
    name: Seq<char>,
    e: SpecExpression,
)
    ensures
        gen_statement(st, SpecStatement::Declaration { data_type: d, variable_name: name, expression: e }) matches Gen::Done(_, st1)
            ==> {
                &&& st1.variables.contains_key(name)
                &&& d == crate::ast::DataType::U8 ==> st1.variables[name] == crate::ir::IRType::U8
                &&& d == crate::ast::DataType::I32 ==> st1.variables[name] == crate::ir::IRType::I32
                &&& st1.instructions.last() matches SpecInstruction { opcode: crate::ir::IROpcode::Store, result_type: crate::ir::IRType::Void, operands }
                &&& operands.len() == 2 && operands[0] == SpecIRValue::GlobalVariable(name)
            },
{
    if let Some(t) = crate::ir_gen::ir_type_of(d) {
        let st1 = GenState { variables: st.variables.insert(name, t), ..st };
        lemma_expression_keeps_variables(st1, e);
    }
}

/// `++` on a variable declared with type `d` just before loads it as, and
/// adds one in, the IR type of `d`: after `d name = e` and `name++`, the
/// body ends with a `Load` of `name`, an `Add` of that load and one, and a
/// `Store` of the sum into `name`, the first two of the declared type.
pub proof fn law_increment_uses_declared_type(
    st: GenState,
    d: crate::ast::DataType,
    name: Seq<char>,
    e: SpecExpression,
)
    ensures
        ({
            let decl = SpecStatement::Declaration { data_type: d, variable_name: name, expression: e };
            let inc = SpecStatement::Increment { variable_name: name };
            gen_statement(st, decl) matches Gen::Done(_, st1) ==> (
                gen_statement(st1, inc) matches Gen::Done(_, st2) && {
                    let n = st1.instructions.len();
                    let t = if d == crate::ast::DataType::U8 { crate::ir::IRType::U8 } else { crate::ir::IRType::I32 };
                    &&& st2.instructions.len() == n + 3
                    &&& st2.instructions[n as int] == SpecInstruction {
                        opcode: crate::ir::IROpcode::Load,
                        result_type: t,
                        operands: seq![SpecIRValue::GlobalVariable(name)],
                    }
                    &&& st2.instructions[n as int + 1] == SpecInstruction {
                        opcode: crate::ir::IROpcode::Add,
                        result_type: t,
                        operands: seq![SpecIRValue::Instruction(n), SpecIRValue::Constant(crate::ir::IRConstant::I32(1))],
                    }
                    &&& st2.instructions[n as int + 2] == store_of(name, SpecIRValue::Instruction(n + 1))
                }
            )
        }),
{
    law_declaration_records_and_stores(st, d, name, e);
}

/// The state after appending `is` to the body of `st`.
pub open spec fn appended(st: GenState, is: Seq<SpecInstruction>) -> GenState {
    GenState { instructions: st.instructions + is, ..st }
}

/// An instruction with its three parts.
pub open spec fn instruction(
    opcode: crate::ir::IROpcode,
    result_type: crate::ir::IRType,
    operands: Seq<SpecIRValue>,
) -> SpecInstruction {
    SpecInstruction { opcode, result_type, operands }
}

/// One `i32` instruction `oc` on the globals `a` and `b`, appended to the
/// body of `st`, and the operand naming it.
pub open spec fn arithmetic_done(st: GenState, oc: crate::ir::IROpcode, a: Seq<char>, b: Seq<char>) -> Gen<SpecIRValue> {
    Gen::Done(
        SpecIRValue::Instruction(st.instructions.len()),
        appended(st, seq![instruction(oc, crate::ir::IRType::I32, seq![
            SpecIRValue::GlobalVariable(a),
            SpecIRValue::GlobalVariable(b),
        ])]),
    )
}

/// Lowering `a op b` of two variables appends one `i32` instruction of the
/// arithmetic the operator names, on the two globals, and yields that
/// instruction: `+` is `Add`, `-` `Sub`, `*` `Mul` and `/` `Div`; `%` and
/// `**` are refused, leaving the state as it was.
pub proof fn law_arithmetic_instruction(st: GenState, op: crate::ast::BinaryOp, a: Seq<char>, b: Seq<char>)
    ensures
        ({
            let r = gen_expression(st, SpecExpression::BinaryOp {
                op,
                left: Box::new(SpecExpression::Variable(a)),
                right: Box::new(SpecExpression::Variable(b)),
            });
            &&& op == crate::ast::BinaryOp::Plus ==> r == arithmetic_done(st, crate::ir::IROpcode::Add, a, b)
            &&& op == crate::ast::BinaryOp::Minus ==> r == arithmetic_done(st, crate::ir::IROpcode::Sub, a, b)
            &&& op == crate::ast::BinaryOp::Multiply ==> r == arithmetic_done(st, crate::ir::IROpcode::Mul, a, b)
            &&& op == crate::ast::BinaryOp::Divide ==> r == arithmetic_done(st, crate::ir::IROpcode::Div, a, b)
            &&& op == crate::ast::BinaryOp::Modulo ==> r == Gen::<SpecIRValue>::Failed(
                crate::ir_gen::SpecIrError::UnsupportedBinaryOperator(op),
                st,
            )
            &&& op == crate::ast::BinaryOp::Power ==> r == Gen::<SpecIRValue>::Failed(
                crate::ir_gen::SpecIrError::UnsupportedBinaryOperator(op),
                st,
            )
        }),
{
    let left = SpecExpression::Variable(a);
    let right = SpecExpression::Variable(b);
    assert(gen_expression(st, left) == Gen::Done(SpecIRValue::GlobalVariable(a), st));
    assert(gen_expression(st, right) == Gen::Done(SpecIRValue::GlobalVariable(b), st));
    if let Some(oc) = crate::ir_gen::opcode_of(op) {
        let i = instruction(oc, crate::ir::IRType::I32, seq![SpecIRValue::GlobalVariable(a), SpecIRValue::GlobalVariable(b)]);
        assert(st.instructions.push(i) =~= st.instructions + seq![i]);
        assert(emit(st, i) == appended(st, seq![i]));
    }
}

/// `name++` and `name--` on a variable of type `t` load it as `t`, add (for
/// `++`) or subtract (for `--`) the `i32` one in type `t`, and store the
/// result into `name`; on an undeclared name they report it and change
/// nothing.
pub proof fn law_step_instructions(st: GenState, name: Seq<char>)
    ensures
        ({
            let n = st.instructions.len() as int;
            let load_store = |t: crate::ir::IRType, oc: crate::ir::IROpcode| seq![
                instruction(crate::ir::IROpcode::Load, t, seq![SpecIRValue::GlobalVariable(name)]),
                instruction(oc, t, seq![
                    SpecIRValue::Instruction(n as nat),
                    SpecIRValue::Constant(crate::ir::IRConstant::I32(1)),
                ]),
                store_of(name, SpecIRValue::Instruction((n + 1) as nat)),
            ];
            let inc = gen_statement(st, SpecStatement::Increment { variable_name: name });
            let dec = gen_statement(st, SpecStatement::Decrement { variable_name: name });
            &&& st.variables.contains_key(name) ==> inc == Gen::<()>::Done(
                (),
                appended(st, load_store(st.variables[name], crate::ir::IROpcode::Add)),
            )
            &&& st.variables.contains_key(name) ==> dec == Gen::<()>::Done(
                (),
                appended(st, load_store(st.variables[name], crate::ir::IROpcode::Sub)),
            )
            &&& !st.variables.contains_key(name) ==> inc == Gen::<()>::Failed(
                crate::ir_gen::SpecIrError::VariableNotFound(name),
                st,
            )
            &&& !st.variables.contains_key(name) ==> dec == Gen::<()>::Failed(
                crate::ir_gen::SpecIrError::VariableNotFound(name),
                st,
            )
        }),
{
    let n = st.instructions.len() as int;
    if st.variables.contains_key(name) {
        let t = st.variables[name];
        let load = instruction(crate::ir::IROpcode::Load, t, seq![SpecIRValue::GlobalVariable(name)]);
        let oper = seq![SpecIRValue::Instruction(n as nat), SpecIRValue::Constant(crate::ir::IRConstant::I32(1))];
        let store = store_of(name, SpecIRValue::Instruction((n + 1) as nat));
        assert(crate::ir_gen::store_instruction(name, SpecIRValue::Instruction((n + 1) as nat)) == store);
        let add = instruction(crate::ir::IROpcode::Add, t, oper);
        let sub = instruction(crate::ir::IROpcode::Sub, t, oper);
        assert(st.instructions.push(load).push(add).push(store) =~= st.instructions + seq![load, add, store]);
        assert(st.instructions.push(load).push(sub).push(store) =~= st.instructions + seq![load, sub, store]);
    }
}

/// `return(name)` appends one `Return` of the global `name`.
pub proof fn law_return_instruction(st: GenState, name: Seq<char>)
    ensures
        gen_statement(st, SpecStatement::Return { expression: SpecExpression::Variable(name) })
            == Gen::<()>::Done((), appended(st, seq![instruction(
                crate::ir::IROpcode::Return,
                crate::ir::IRType::Void,
                seq![SpecIRValue::GlobalVariable(name)],
            )])),
{
    let i = instruction(crate::ir::IROpcode::Return, crate::ir::IRType::Void, seq![SpecIRValue::GlobalVariable(name)]);
    assert(st.instructions.push(i) =~= st.instructions + seq![i]);
}

/// An `if` on the variable `c` with an empty then branch, made when `n`
/// labels exist, makes three new labels and appends a `JumpIfFalse` on `c`
/// to the second, `L` and the numeral of `n + 2`, and a `Jump` to the
/// third, `L` and the numeral of `n + 3`.
pub proof fn law_if_jumps(st: GenState, c: Seq<char>, elifs: Seq<(SpecExpression, Seq<SpecStatement>)>, els: Option<Seq<SpecStatement>>)
    requires
        st.label_count + 3 <= usize::MAX,
    ensures
        ({
            let n = st.label_count;
            let s = SpecStatement::If {
                condition: SpecExpression::Variable(c),
                then_branch: Seq::empty(),
                elif_branches: elifs,
                else_branch: els,
            };
            gen_statement(st, s) == Gen::<()>::Done((), GenState {
                instructions: st.instructions + seq![
                    instruction(crate::ir::IROpcode::JumpIfFalse, crate::ir::IRType::Void, seq![
                        SpecIRValue::GlobalVariable(c),
                        SpecIRValue::GlobalVariable(seq!['L'] + decimal_text(n + 2)),
                    ]),
                    instruction(crate::ir::IROpcode::Jump, crate::ir::IRType::Void, seq![
                        SpecIRValue::GlobalVariable(seq!['L'] + decimal_text(n + 3)),
                    ]),
                ],
                label_count: n + 3,
                ..st
            })
        }),
{
    let n = st.label_count;
    let j1 = instruction(crate::ir::IROpcode::JumpIfFalse, crate::ir::IRType::Void, seq![
        SpecIRValue::GlobalVariable(c),
        SpecIRValue::GlobalVariable(label_text(n + 2)),
    ]);
    let j2 = instruction(crate::ir::IROpcode::Jump, crate::ir::IRType::Void, seq![
        SpecIRValue::GlobalVariable(label_text(n + 3)),
    ]);
    let st2 = emit(GenState { label_count: n + 3, ..st }, j1);
    assert(gen_statements(st2, Seq::empty(), 0) == Gen::<()>::Done((), st2));
    assert(st.instructions.push(j1).push(j2) =~= st.instructions + seq![j1, j2]);
}

proof fn lemma_first_unmapped_none(ps: Seq<(crate::ast::DataType, Seq<char>)>)
    requires
        crate::ir_gen::first_unmapped(ps) is None,
    ensures
        forall|k: int| 0 <= k < ps.len() ==> (#[trigger] ps[k]).0 == crate::ast::DataType::U8
            || ps[k].0 == crate::ast::DataType::I32,
    decreases ps.len(),
{
    if ps.len() > 0 {
        let rest = ps.drop_first();
        lemma_first_unmapped_none(rest);
        assert forall|k: int| 0 <= k < ps.len() implies (#[trigger] ps[k]).0 == crate::ast::DataType::U8
            || ps[k].0 == crate::ast::DataType::I32 by {
            if k > 0 {
                assert(ps[k] == rest[k - 1]);
            }
        }
    }
}

/// A function that lowers keeps the names and order of its parameters, and
/// their types are `u8` or `i32`, mapped to `U8` and `I32`; its return type
/// is `U8` for `u8`, `I32` for `i32`, and `Void` when none is declared.
pub proof fn law_function_signature(st: GenState, f: SpecFunctionDeclaration)
    ensures
        gen_function(st, f) matches Gen::Done(_, st1) ==> ({
            let g = st1.functions.last();
            &&& g.parameters.len() == f.parameters.len()
            &&& forall|k: int| 0 <= k < f.parameters.len() ==> {
                &&& (#[trigger] g.parameters[k]).1 == f.parameters[k].1
                &&& f.parameters[k].0 == crate::ast::DataType::U8 || f.parameters[k].0 == crate::ast::DataType::I32
                &&& f.parameters[k].0 == crate::ast::DataType::U8 ==> g.parameters[k].0 == crate::ir::IRType::U8
                &&& f.parameters[k].0 == crate::ast::DataType::I32 ==> g.parameters[k].0 == crate::ir::IRType::I32
            }
            &&& f.return_type is None ==> g.return_type == crate::ir::IRType::Void
            &&& f.return_type == Some(crate::ast::DataType::U8) ==> g.return_type == crate::ir::IRType::U8
            &&& f.return_type == Some(crate::ast::DataType::I32) ==> g.return_type == crate::ir::IRType::I32
            &&& f.return_type is Some ==> f.return_type == Some(crate::ast::DataType::U8)
                || f.return_type == Some(crate::ast::DataType::I32)
        }),
{
    lemma_function_appends(st, f);
    if crate::ir_gen::first_unmapped(f.parameters) is None {
        lemma_first_unmapped_none(f.parameters);
    }
}

} // verus!
