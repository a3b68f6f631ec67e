//! The IR generator: lowers the syntax tree of a program to IR functions.
//!
//! [`gen_program`] and the functions it calls are the model: from a
//! generator state and (the model of) a program they compute the IR and the
//! state afterwards, the error met, or the fault that stops generation
//! outright (a data type the IR has no type for, or too many labels).

use vstd::prelude::*;

use crate::ast::{
    parameters_view, statements_view, top_levels_view, BinaryOp, DataType, Expression,
    FunctionDeclaration,
    SpecExpression, SpecFunctionDeclaration, SpecStatement, SpecTopLevel, Statement, TopLevel,
};
use crate::ir::{
    duplicate_functions, duplicate_instructions, duplicate_parameters, functions_view,
    instructions_view, ir_parameters_view, values_view, IRConstant, IRFunction, IRInstruction,
    IROpcode, IRProgram, IRType, IRValue, SpecIRFunction, SpecIRValue, SpecInstruction,
};
use crate::text::{chars_of, string_from_chars};

verus! {

/// Why a program could not be lowered to IR.
#[derive(Debug, Clone, PartialEq)]
pub enum IrError {
    /// `++` or `--` on a variable that was not declared in the function.
    VariableNotFound(String),
    /// An arithmetic operator that the IR has no instruction for.
    UnsupportedBinaryOperator(BinaryOp),
    /// An expression form that the generator does not lower.
    UnimplementedExpression,
}

/// The model of an [`IrError`].
pub enum SpecIrError {
    VariableNotFound(Seq<char>),
    UnsupportedBinaryOperator(BinaryOp),
    UnimplementedExpression,
}

impl View for IrError {
    type V = SpecIrError;

    open spec fn view(&self) -> SpecIrError {
        match self {
            IrError::VariableNotFound(s) => SpecIrError::VariableNotFound(s@),
            IrError::UnsupportedBinaryOperator(op) => SpecIrError::UnsupportedBinaryOperator(*op),
            IrError::UnimplementedExpression => SpecIrError::UnimplementedExpression,
        }
    }
}

/// The symbol an arithmetic operator is written with.
pub open spec fn binary_op_symbol(op: BinaryOp) -> Seq<char> {
    match op {
        BinaryOp::Plus => "+"@,
        BinaryOp::Minus => "-"@,
        BinaryOp::Multiply => "*"@,
        BinaryOp::Divide => "/"@,
        BinaryOp::Modulo => "%"@,
        BinaryOp::Power => "**"@,
    }
}

/// The text a generation error is reported with.
pub open spec fn ir_error_text(e: SpecIrError) -> Seq<char> {
    match e {
        SpecIrError::VariableNotFound(name) => "Variable not found: "@ + name,
        SpecIrError::UnsupportedBinaryOperator(op) => "Unsupported binary operator: "@ + binary_op_symbol(op),
        SpecIrError::UnimplementedExpression => "Unimplemented expression type"@,
    }
}

/// The symbol an arithmetic operator is written with.
fn binary_op_symbol_chars(op: BinaryOp) -> (v: Vec<char>)
    ensures
        v@ == binary_op_symbol(op),
{
    match op {
        BinaryOp::Plus => chars_of("+"),
        BinaryOp::Minus => chars_of("-"),
        BinaryOp::Multiply => chars_of("*"),
        BinaryOp::Divide => chars_of("/"),
        BinaryOp::Modulo => chars_of("%"),
        BinaryOp::Power => chars_of("**"),
    }
}

impl IrError {
    /// The text this error is reported with: `Variable not found: ` and the
    /// name, `Unsupported binary operator: ` and the operator's symbol, or
    /// `Unimplemented expression type`.
    pub fn message(&self) -> (m: String)
        ensures
            m@ == ir_error_text(self@),
    {
        let text = match self {
            IrError::VariableNotFound(name) => {
                let mut t = chars_of("Variable not found: ");
                let mut rest = chars_of(name.as_str());
                t.append(&mut rest);
                t
            },
            IrError::UnsupportedBinaryOperator(op) => {
                let mut t = chars_of("Unsupported binary operator: ");
                let mut rest = binary_op_symbol_chars(*op);
                t.append(&mut rest);
                t
            },
            IrError::UnimplementedExpression => chars_of("Unimplemented expression type"),
        };
        string_from_chars(&text)
    }
}

/// What stops generation outright.
#[derive(Debug, Clone, Copy, PartialEq, Eq)]
pub enum IrFault {
    /// A data type that has no IR type.
    UnmappedDataType(DataType),
    /// The label counter would pass `usize::MAX`.
    LabelOverflow,
}

/// The model of the generator's state.
#[verifier::ext_equal]
pub struct GenState {
    /// The variables of the current function and their types.
    pub variables: Map<Seq<char>, IRType>,
    /// The body of the current function so far.
    pub instructions: Seq<SpecInstruction>,
    pub function_name: Seq<char>,
    pub parameters: Seq<(IRType, Seq<char>)>,
    pub return_type: IRType,
    /// Every function generated so far.
    pub functions: Seq<SpecIRFunction>,
    /// How many labels have been made.
    pub label_count: nat,
}

/// The outcome of a generation step in the model.
pub enum Gen<T> {
    Done(T, GenState),
    Failed(SpecIrError, GenState),
    Fault(IrFault),
}

/// The IR type of a data type, for the data types that have one.
pub open spec fn ir_type_of(d: DataType) -> Option<IRType> {
    match d {
        DataType::U8 => Some(IRType::U8),
        DataType::I32 => Some(IRType::I32),
        _ => None,
    }
}

/// The IR type of a data type that has one.
pub fn map_data_type(data_type: &DataType) -> (r: IRType)
    requires
        ir_type_of(*data_type) is Some,
    ensures
        ir_type_of(*data_type) == Some(r),
{
    match data_type {
        DataType::U8 => IRType::U8,
        _ => IRType::I32,
    }
}

/// Whether a data type has an IR type.
fn has_ir_type(data_type: &DataType) -> (r: bool)
    ensures
        r == (ir_type_of(*data_type) is Some),
{
    match data_type {
        DataType::U8 | DataType::I32 => true,
        _ => false,
    }
}

/// The decimal digit character for `d < 10`.
pub open spec fn digit_char(d: nat) -> char {
    (48 + d) as char
}

/// The decimal numeral of `n`.
pub open spec fn decimal_text(n: nat) -> Seq<char>
    decreases n,
{
    if n < 10 {
        seq![digit_char(n)]
    } else {
        decimal_text(n / 10).push(digit_char(n % 10))
    }
}

/// The name of label number `n`: `L` and the numeral of `n`.
pub open spec fn label_text(n: nat) -> Seq<char> {
    seq!['L'] + decimal_text(n)
}

/// Appends the decimal numeral of `n` to `out`.
fn push_decimal(n: usize, out: &mut Vec<char>)
    ensures
        final(out)@ == old(out)@ + decimal_text(n as nat),
    decreases n,
{
    if n >= 10 {
        push_decimal(n / 10, out);
    }
    let d = (n % 10) as u8;
    let c = (d + 48) as char;
    assert(c == digit_char((n % 10) as nat));
    let ghost before = out@;
    out.push(c);
    proof {
        if n >= 10 {
            assert(out@ =~= old(out)@ + decimal_text(n as nat));
        } else {
            assert(out@ =~= old(out)@ + decimal_text(n as nat));
        }
    }
}

/// The model after appending instruction `i` to the current body.
pub open spec fn emit(st: GenState, i: SpecInstruction) -> GenState {
    GenState { instructions: st.instructions.push(i), ..st }
}

/// `Store` of value `v` into the global `name`.
pub open spec fn store_instruction(name: Seq<char>, v: SpecIRValue) -> SpecInstruction {
    SpecInstruction {
        opcode: IROpcode::Store,
        result_type: IRType::Void,
        operands: seq![SpecIRValue::GlobalVariable(name), v],
    }
}

/// The opcode of an arithmetic operator, for those that have one.
pub open spec fn opcode_of(op: BinaryOp) -> Option<IROpcode> {
    match op {
        BinaryOp::Plus => Some(IROpcode::Add),
        BinaryOp::Minus => Some(IROpcode::Sub),
        BinaryOp::Multiply => Some(IROpcode::Mul),
        BinaryOp::Divide => Some(IROpcode::Div),
        _ => None,
    }
}

/// Lowers an expression: the operand that stands for its value.
pub open spec fn gen_expression(st: GenState, e: SpecExpression) -> Gen<SpecIRValue>
    decreases e,
{
    match e {
        SpecExpression::LiteralU8(v) => Gen::Done(SpecIRValue::Constant(IRConstant::U8(v)), st),
        SpecExpression::LiteralI32(v) => Gen::Done(SpecIRValue::Constant(IRConstant::I32(v)), st),
        SpecExpression::Variable(name) => Gen::Done(SpecIRValue::GlobalVariable(name), st),
        SpecExpression::BinaryOp { op, left, right } => match gen_expression(st, *left) {
            Gen::Done(lv, st1) => match gen_expression(st1, *right) {
                Gen::Done(rv, st2) => match opcode_of(op) {
                    Some(oc) => {
                        let st3 = emit(st2, SpecInstruction { opcode: oc, result_type: IRType::I32, operands: seq![lv, rv] });
                        Gen::Done(SpecIRValue::Instruction(st2.instructions.len()), st3)
                    },
                    None => Gen::Failed(SpecIrError::UnsupportedBinaryOperator(op), st2),
                },
                Gen::Failed(x, s) => Gen::Failed(x, s),
                Gen::Fault(f) => Gen::Fault(f),
            },
            Gen::Failed(x, s) => Gen::Failed(x, s),
            Gen::Fault(f) => Gen::Fault(f),
        },
        _ => Gen::Failed(SpecIrError::UnimplementedExpression, st),
    }
}

/// `++` (with `Add`) or `--` (with `Sub`) of a variable: load, add or
/// subtract one, store.
pub open spec fn gen_step(st: GenState, name: Seq<char>, opcode: IROpcode) -> Gen<()> {
    if st.variables.contains_key(name) {
        let t = st.variables[name];
        let st1 = emit(st, SpecInstruction {
            opcode: IROpcode::Load,
            result_type: t,
            operands: seq![SpecIRValue::GlobalVariable(name)],
        });
        let st2 = emit(st1, SpecInstruction {
            opcode,
            result_type: t,
            operands: seq![
                SpecIRValue::Instruction(st.instructions.len()),
                SpecIRValue::Constant(IRConstant::I32(1)),
            ],
        });
        Gen::Done((), emit(st2, store_instruction(name, SpecIRValue::Instruction(st1.instructions.len()))))
    } else {
        Gen::Failed(SpecIrError::VariableNotFound(name), st)
    }
}

/// Lowers a statement. An `if` lowers its condition and then branch
/// between a `JumpIfFalse` to its second label and a `Jump` to its third;
/// `elif` and `else` branches, loops and call statements lower to nothing.
pub open spec fn gen_statement(st: GenState, s: SpecStatement) -> Gen<()>
    decreases s, 0int,
{
    match s {
        SpecStatement::Declaration { data_type, variable_name, expression } => match ir_type_of(data_type) {
            Some(t) => {
                let st1 = GenState { variables: st.variables.insert(variable_name, t), ..st };
                match gen_expression(st1, expression) {
                    Gen::Done(v, st2) => Gen::Done((), emit(st2, store_instruction(variable_name, v))),
                    Gen::Failed(x, s) => Gen::Failed(x, s),
                    Gen::Fault(f) => Gen::Fault(f),
                }
            },
            None => Gen::Fault(IrFault::UnmappedDataType(data_type)),
        },
        SpecStatement::Assignment { variable_name, expression } => match gen_expression(st, expression) {
            Gen::Done(v, st2) => Gen::Done((), emit(st2, store_instruction(variable_name, v))),
            Gen::Failed(x, s) => Gen::Failed(x, s),
            Gen::Fault(f) => Gen::Fault(f),
        },
        SpecStatement::Increment { variable_name } => gen_step(st, variable_name, IROpcode::Add),
        SpecStatement::Decrement { variable_name } => gen_step(st, variable_name, IROpcode::Sub),
        SpecStatement::If { condition, then_branch, elif_branches, else_branch } => match gen_expression(st, condition) {
            Gen::Done(cv, st1) => if st1.label_count + 3 > usize::MAX {
                Gen::Fault(IrFault::LabelOverflow)
            } else {
                let n = st1.label_count;
                let st2 = emit(GenState { label_count: n + 3, ..st1 }, SpecInstruction {
                    opcode: IROpcode::JumpIfFalse,
                    result_type: IRType::Void,
                    operands: seq![cv, SpecIRValue::GlobalVariable(label_text(n + 2))],
                });
                gen_then_branch(st2, then_branch, n)
            },
            Gen::Failed(x, s) => Gen::Failed(x, s),
            Gen::Fault(f) => Gen::Fault(f),
        },
        SpecStatement::Return { expression } => match gen_expression(st, expression) {
            Gen::Done(v, st2) => Gen::Done((), emit(st2, SpecInstruction {
                opcode: IROpcode::Return,
                result_type: IRType::Void,
                operands: seq![v],
            })),
            Gen::Failed(x, s) => Gen::Failed(x, s),
            Gen::Fault(f) => Gen::Fault(f),
        },
        _ => Gen::Done((), st),
    }
}

/// The then branch of an `if` whose labels start after `n`, followed by the
/// `Jump` to its third label.
pub open spec fn gen_then_branch(st: GenState, then_branch: Seq<SpecStatement>, n: nat) -> Gen<()>
    decreases then_branch, then_branch.len() + 1,
{
    match gen_statements(st, then_branch, 0) {
        Gen::Done(_, st1) => Gen::Done((), emit(st1, SpecInstruction {
            opcode: IROpcode::Jump,
            result_type: IRType::Void,
            operands: seq![SpecIRValue::GlobalVariable(label_text(n + 3))],
        })),
        Gen::Failed(x, s) => Gen::Failed(x, s),
        Gen::Fault(f) => Gen::Fault(f),
    }
}

/// Lowers the statements of `ss` from the `i`-th on, in order.
pub open spec fn gen_statements(st: GenState, ss: Seq<SpecStatement>, i: int) -> Gen<()>
    decreases ss, ss.len() - i,
{
    if 0 <= i < ss.len() {
        match gen_statement(st, ss[i]) {
            Gen::Done(_, st1) => gen_statements(st1, ss, i + 1),
            Gen::Failed(x, s) => Gen::Failed(x, s),
            Gen::Fault(f) => Gen::Fault(f),
        }
    } else {
        Gen::Done((), st)
    }
}

/// The first parameter type that has no IR type, if any.
pub open spec fn first_unmapped(ps: Seq<(DataType, Seq<char>)>) -> Option<DataType>
    decreases ps.len(),
{
    if ps.len() == 0 {
        None
    } else {
        match ir_type_of(ps[0].0) {
            Some(_) => first_unmapped(ps.drop_first()),
            None => Some(ps[0].0),
        }
    }
}

/// The IR parameters of a parameter list whose types all have IR types.
pub open spec fn ir_parameters(ps: Seq<(DataType, Seq<char>)>) -> Seq<(IRType, Seq<char>)> {
    ps.map_values(|p: (DataType, Seq<char>)| (ir_type_of(p.0)->Some_0, p.1))
}

/// The variables that a list of bindings declares; a later binding of a
/// name replaces an earlier one.
pub open spec fn bindings_map(bs: Seq<(Seq<char>, IRType)>) -> Map<Seq<char>, IRType>
    decreases bs.len(),
{
    if bs.len() == 0 {
        Map::empty()
    } else {
        bindings_map(bs.drop_last()).insert(bs.last().0, bs.last().1)
    }
}

/// The variables that a parameter list declares.
pub open spec fn parameter_variables(ps: Seq<(IRType, Seq<char>)>) -> Map<Seq<char>, IRType> {
    bindings_map(ps.map_values(|p: (IRType, Seq<char>)| (p.1, p.0)))
}

/// Once the body of the current function is lowered: appends the function
/// to the functions generated so far.
pub open spec fn function_done(r: Gen<()>) -> Gen<()> {
    match r {
        Gen::Done(_, st) => Gen::Done((), GenState {
            functions: st.functions.push(SpecIRFunction {
                name: st.function_name,
                parameters: st.parameters,
                return_type: st.return_type,
                body: st.instructions,
            }),
            ..st
        }),
        Gen::Failed(x, s) => Gen::Failed(x, s),
        Gen::Fault(f) => Gen::Fault(f),
    }
}

/// Lowers one function and appends it to the functions generated so far.
pub open spec fn gen_function(st: GenState, f: SpecFunctionDeclaration) -> Gen<()> {
    match first_unmapped(f.parameters) {
        Some(d) => Gen::Fault(IrFault::UnmappedDataType(d)),
        None => {
            let return_type = match f.return_type {
                Some(d) => ir_type_of(d),
                None => Some(IRType::Void),
            };
            match return_type {
                None => Gen::Fault(IrFault::UnmappedDataType(f.return_type->Some_0)),
                Some(rt) => {
                    let ps = ir_parameters(f.parameters);
                    let st1 = GenState {
                        variables: parameter_variables(ps),
                        instructions: Seq::empty(),
                        function_name: f.name,
                        parameters: ps,
                        return_type: rt,
                        ..st
                    };
                    function_done(gen_statements(st1, f.body, 0))
                },
            }
        },
    }
}

/// Lowers the top-level items of `ts` from the `i`-th on; the program is
/// every function generated so far, those of earlier runs included.
pub open spec fn gen_program(st: GenState, ts: Seq<SpecTopLevel>, i: int) -> Gen<Seq<SpecIRFunction>>
    decreases ts.len() - i,
{
    if 0 <= i < ts.len() {
        match ts[i] {
            SpecTopLevel::Function(f) => match gen_function(st, f) {
                Gen::Done(_, st1) => gen_program(st1, ts, i + 1),
                Gen::Failed(x, s) => Gen::Failed(x, s),
                Gen::Fault(f) => Gen::Fault(f),
            },
        }
    } else {
        Gen::Done(st.functions, st)
    }
}

/// What ends an executable generation step early.
enum GenFailure {
    Error(IrError),
    Fault(IrFault),
}

/// An executable generation result `r`, with the generator in state `after`,
/// is what the model `m` says, the value seen through `view`.
spec fn gen_agrees<T, V>(r: Result<T, GenFailure>, after: GenState, m: Gen<V>, view: spec_fn(T) -> V) -> bool {
    match (r, m) {
        (Ok(v), Gen::Done(w, s)) => view(v) == w && after == s,
        (Err(GenFailure::Error(e)), Gen::Failed(x, s)) => e@ == x && after == s,
        (Err(GenFailure::Fault(f)), Gen::Fault(g)) => f == g,
        _ => false,
    }
}

/// The models of a list of variable bindings.
pub open spec fn bindings_view(bs: Seq<(String, IRType)>) -> Seq<(Seq<char>, IRType)> {
    bs.map_values(|b: (String, IRType)| (b.0@, b.1))
}

/// A later binding of `key` decides what the bindings map `key` to; with no
/// binding of `key` after position `j`, the first `j` bindings decide it.
proof fn lemma_bindings_tail(bs: Seq<(Seq<char>, IRType)>, key: Seq<char>, j: int)
    requires
        0 <= j <= bs.len(),
        forall|k: int| j <= k < bs.len() ==> (#[trigger] bs[k]).0 != key,
    ensures
        bindings_map(bs).contains_key(key) == bindings_map(bs.take(j)).contains_key(key),
        bindings_map(bs).contains_key(key) ==> bindings_map(bs)[key] == bindings_map(bs.take(j))[key],
    decreases bs.len() - j,
{
    if j < bs.len() {
        let shorter = bs.drop_last();
        assert(shorter.take(j) =~= bs.take(j));
        lemma_bindings_tail(shorter, key, j);
    } else {
        assert(bs.take(j) =~= bs);
    }
}

/// Generates IR for the functions of a program.
pub struct IrGenerator {
    variables: Vec<(String, IRType)>,
    instructions: Vec<IRInstruction>,
    function_name: String,
    parameters: Vec<(IRType, String)>,
    return_type: IRType,
    functions: Vec<IRFunction>,
    label_count: usize,
}

impl View for IrGenerator {
    type V = GenState;

    closed spec fn view(&self) -> GenState {
        GenState {
            variables: bindings_map(bindings_view(self.variables@)),
            instructions: instructions_view(self.instructions@),
            function_name: self.function_name@,
            parameters: ir_parameters_view(self.parameters@),
            return_type: self.return_type,
            functions: functions_view(self.functions@),
            label_count: self.label_count as nat,
        }
    }
}

impl IrGenerator {
    /// A generator that has generated nothing yet.
    pub fn new() -> (g: Self)
        ensures
            g@ == (GenState {
                variables: Map::empty(),
                instructions: Seq::empty(),
                function_name: Seq::empty(),
                parameters: Seq::empty(),
                return_type: IRType::Void,
                functions: Seq::empty(),
                label_count: 0,
            }),
    {
        let g = IrGenerator {
            variables: Vec::new(),
            instructions: Vec::new(),
            function_name: String::new(),
            parameters: Vec::new(),
            return_type: IRType::Void,
            functions: Vec::new(),
            label_count: 0,
        };
        assert(bindings_view(g.variables@) =~= Seq::<(Seq<char>, IRType)>::empty());
        assert(instructions_view(g.instructions@) =~= Seq::<SpecInstruction>::empty());
        assert(ir_parameters_view(g.parameters@) =~= Seq::<(IRType, Seq<char>)>::empty());
        assert(functions_view(g.functions@) =~= Seq::<SpecIRFunction>::empty());
        g
    }

    /// Makes the next label: `L` and the new count of labels.
    fn next_label(&mut self) -> (r: String)
        requires
            old(self).label_count < usize::MAX,
        ensures
            r@ == label_text(old(self)@.label_count + 1),
            final(self)@ == (GenState { label_count: old(self)@.label_count + 1, ..old(self)@ }),
    {
        self.label_count = self.label_count + 1;
        let mut text: Vec<char> = Vec::new();
        text.push('L');
        push_decimal(self.label_count, &mut text);
        assert(text@ =~= label_text(self.label_count as nat));
        string_from_chars(&text)
    }

    /// The type of variable `name` in the current function, if it has one.
    fn lookup_variable(&self, name: &String) -> (r: Option<IRType>)
        ensures
            r == (if self@.variables.contains_key(name@) { Some(self@.variables[name@]) } else { None }),
    {
        let ghost bs = bindings_view(self.variables@);
        let mut j = self.variables.len();
        while j > 0
            invariant
                j <= self.variables.len(),
                bs == bindings_view(self.variables@),
                forall|k: int| j <= k < bs.len() ==> (#[trigger] bs[k]).0 != name@,
            decreases j,
        {
            let (key, t) = &self.variables[j - 1];
            if *key == *name {
                proof {
                    lemma_bindings_tail(bs, name@, j as int);
                    let pre = bs.take(j as int);
                    assert(pre.drop_last().take(j - 1) =~= pre.drop_last());
                    assert(pre.last() == bs[j - 1]);
                }
                return Some(*t);
            }
            j = j - 1;
        }
        proof {
            lemma_bindings_tail(bs, name@, 0);
            assert(bs.take(0) =~= Seq::<(Seq<char>, IRType)>::empty());
        }
        None
    }

    /// Declares variable `name` with type `t` in the current function.
    fn declare_variable(&mut self, name: String, t: IRType)
        ensures
            final(self)@ == (GenState { variables: old(self)@.variables.insert(name@, t), ..old(self)@ }),
    {
        let ghost before = self.variables@;
        let ghost key = name@;
        self.variables.push((name, t));
        assert(bindings_view(self.variables@).drop_last() =~= bindings_view(before));
        assert(self@ =~= (GenState { variables: old(self)@.variables.insert(key, t), ..old(self)@ }));
    }

    /// Appends an instruction to the current function body.
    fn emit(&mut self, instruction: IRInstruction)
        ensures
            final(self)@ == emit(old(self)@, instruction@),
    {
        let ghost i = instruction@;
        self.instructions.push(instruction);
        assert(instructions_view(self.instructions@) =~= instructions_view(old(self).instructions@).push(i));
        assert(self@ =~= emit(old(self)@, i));
    }

    /// The number of instructions in the current function body.
    fn instruction_count(&self) -> (r: usize)
        ensures
            r == self@.instructions.len(),
    {
        self.instructions.len()
    }
}

impl IrGenerator {
    /// Lowers an expression: the operand that stands for its value.
    fn generate_expression(&mut self, expression: &Expression) -> (r: Result<IRValue, GenFailure>)
        ensures
            gen_agrees(r, final(self)@, gen_expression(old(self)@, expression@), |v: IRValue| v@),
        decreases expression,
    {
        match expression {
            Expression::LiteralU8(value) => Ok(IRValue::Constant(IRConstant::U8(*value))),
            Expression::LiteralI32(value) => Ok(IRValue::Constant(IRConstant::I32(*value))),
            Expression::Variable(name) => Ok(IRValue::GlobalVariable(name.clone())),
            Expression::BinaryOp { op, left, right } => {
                let left_value = match self.generate_expression(left) {
                    Ok(v) => v,
                    Err(e) => return Err(e),
                };
                let right_value = match self.generate_expression(right) {
                    Ok(v) => v,
                    Err(e) => return Err(e),
                };
                let opcode = match op {
                    BinaryOp::Plus => IROpcode::Add,
                    BinaryOp::Minus => IROpcode::Sub,
                    BinaryOp::Multiply => IROpcode::Mul,
                    BinaryOp::Divide => IROpcode::Div,
                    _ => return Err(GenFailure::Error(IrError::UnsupportedBinaryOperator(*op))),
                };
                let index = self.instruction_count();
                let mut operands: Vec<IRValue> = Vec::new();
                operands.push(left_value);
                operands.push(right_value);
                let instruction = IRInstruction { opcode, result_type: IRType::I32, operands };
                assert(instruction@.operands =~= seq![operands@[0]@, operands@[1]@]);
                self.emit(instruction);
                Ok(IRValue::Instruction(index))
            },
            _ => Err(GenFailure::Error(IrError::UnimplementedExpression)),
        }
    }

    /// `Store` of `value` into the global `name`.
    fn store(&mut self, name: &String, value: IRValue)
        ensures
            final(self)@ == emit(old(self)@, store_instruction(name@, value@)),
    {
        let mut operands: Vec<IRValue> = Vec::new();
        operands.push(IRValue::GlobalVariable(name.clone()));
        operands.push(value);
        let instruction = IRInstruction { opcode: IROpcode::Store, result_type: IRType::Void, operands };
        assert(instruction@.operands =~= store_instruction(name@, operands@[1]@).operands);
        self.emit(instruction);
    }

    /// `++` (with `Add`) or `--` (with `Sub`) of a variable.
    fn generate_step(&mut self, variable_name: &String, opcode: IROpcode) -> (r: Result<(), GenFailure>)
        ensures
            gen_agrees(r, final(self)@, gen_step(old(self)@, variable_name@, opcode), |u: ()| u),
    {
        let result_type = match self.lookup_variable(variable_name) {
            Some(t) => t,
            None => return Err(GenFailure::Error(IrError::VariableNotFound(variable_name.clone()))),
        };
        let mut operands: Vec<IRValue> = Vec::new();
        operands.push(IRValue::GlobalVariable(variable_name.clone()));
        let load_instruction = IRInstruction { opcode: IROpcode::Load, result_type, operands };
        assert(load_instruction@.operands =~= seq![SpecIRValue::GlobalVariable(variable_name@)]);
        self.emit(load_instruction);
        let value_index = self.instruction_count() - 1;
        let mut operands: Vec<IRValue> = Vec::new();
        operands.push(IRValue::Instruction(value_index));
        operands.push(IRValue::Constant(IRConstant::I32(1)));
        let step_instruction = IRInstruction { opcode, result_type, operands };
        assert(step_instruction@.operands =~= seq![
            SpecIRValue::Instruction(value_index as nat),
            SpecIRValue::Constant(IRConstant::I32(1)),
        ]);
        self.emit(step_instruction);
        let stored = self.instruction_count() - 1;
        self.store(variable_name, IRValue::Instruction(stored));
        Ok(())
    }

    /// Lowers a statement.
    fn generate_statement(&mut self, statement: &Statement) -> (r: Result<(), GenFailure>)
        ensures
            gen_agrees(r, final(self)@, gen_statement(old(self)@, statement@), |u: ()| u),
        decreases statement@,
    {
        match statement {
            Statement::Declaration { data_type, variable_name, expression } => {
                if !has_ir_type(data_type) {
                    return Err(GenFailure::Fault(IrFault::UnmappedDataType(*data_type)));
                }
                let ir_type = map_data_type(data_type);
                self.declare_variable(variable_name.clone(), ir_type);
                let value = match self.generate_expression(expression) {
                    Ok(v) => v,
                    Err(e) => return Err(e),
                };
                self.store(variable_name, value);
                Ok(())
            },
            Statement::Assignment { variable_name, expression } => {
                let value = match self.generate_expression(expression) {
                    Ok(v) => v,
                    Err(e) => return Err(e),
                };
                self.store(variable_name, value);
                Ok(())
            },
            Statement::Increment { variable_name } => self.generate_step(variable_name, IROpcode::Add),
            Statement::Decrement { variable_name } => self.generate_step(variable_name, IROpcode::Sub),
            Statement::If { condition, then_branch, elif_branches, else_branch } => {
                let condition_value = match self.generate_expression(condition) {
                    Ok(v) => v,
                    Err(e) => return Err(e),
                };
                if self.label_count > usize::MAX - 3 {
                    return Err(GenFailure::Fault(IrFault::LabelOverflow));
                }
                let _then_label = self.next_label();
                let else_label = self.next_label();
                let end_if_label = self.next_label();
                let mut operands: Vec<IRValue> = Vec::new();
                operands.push(condition_value);
                operands.push(IRValue::GlobalVariable(else_label));
                let jump_if_false = IRInstruction { opcode: IROpcode::JumpIfFalse, result_type: IRType::Void, operands };
                assert(jump_if_false@.operands =~= seq![operands@[0]@, operands@[1]@]);
                self.emit(jump_if_false);
                let ghost tb = statements_view(then_branch@);
                let ghost st2 = self@;
                let ghost n = (self.label_count - 3) as nat;
                assert(gen_statement(old(self)@, statement@) == gen_then_branch(st2, tb, n));
                let mut i: usize = 0;
                while i < then_branch.len()
                    invariant
                        i <= then_branch.len(),
                        tb == statements_view(then_branch@),
                        statement@ is If,
                        statement@->then_branch == tb,
                        gen_statement(old(self)@, statement@) == gen_then_branch(st2, tb, n),
                        end_if_label@ == label_text(n + 3),
                        gen_statements(st2, tb, 0) == gen_statements(self@, tb, i as int),
                    decreases then_branch.len() - i,
                {
                    assert(tb[i as int] == then_branch@[i as int]@);
                    assert(decreases_to!(statement@ => tb[i as int]));
                    match self.generate_statement(&then_branch[i]) {
                        Ok(()) => {},
                        Err(e) => return Err(e),
                    }
                    i = i + 1;
                }
                let mut operands: Vec<IRValue> = Vec::new();
                operands.push(IRValue::GlobalVariable(end_if_label));
                let jump = IRInstruction { opcode: IROpcode::Jump, result_type: IRType::Void, operands };
                assert(jump@.operands =~= seq![operands@[0]@]);
                self.emit(jump);
                Ok(())
            },
            Statement::For { .. } => Ok(()),
            Statement::While { .. } => Ok(()),
            Statement::FunctionCall { .. } => Ok(()),
            Statement::Return { expression } => {
                let value = match self.generate_expression(expression) {
                    Ok(v) => v,
                    Err(e) => return Err(e),
                };
                let mut operands: Vec<IRValue> = Vec::new();
                operands.push(value);
                let return_instruction = IRInstruction { opcode: IROpcode::Return, result_type: IRType::Void, operands };
                assert(return_instruction@.operands =~= seq![operands@[0]@]);
                self.emit(return_instruction);
                Ok(())
            },
        }
    }
}

impl IrGenerator {
    /// Lowers one function and appends it to the functions generated so far.
    fn generate_function(&mut self, func: &FunctionDeclaration) -> (r: Result<(), GenFailure>)
        ensures
            gen_agrees(r, final(self)@, gen_function(old(self)@, func@), |u: ()| u),
    {
        let ghost fv = func@;
        self.function_name = func.name.clone();
        // The parameters, each with the IR type of its data type.
        let mut parameters: Vec<(IRType, String)> = Vec::new();
        let mut i: usize = 0;
        assert(fv.parameters.skip(0) =~= fv.parameters);
        assert(ir_parameters_view(parameters@) =~= ir_parameters(fv.parameters.take(0)));
        while i < func.parameters.len()
            invariant
                i <= func.parameters.len(),
                fv == func@,
                first_unmapped(fv.parameters) == first_unmapped(fv.parameters.skip(i as int)),
                ir_parameters_view(parameters@) == ir_parameters(fv.parameters.take(i as int)),
            decreases func.parameters.len() - i,
        {
            let (data_type, name) = &func.parameters[i];
            assert(fv.parameters.skip(i as int).drop_first() =~= fv.parameters.skip(i + 1));
            assert(fv.parameters.skip(i as int)[0] == (*data_type, name@));
            if !has_ir_type(data_type) {
                return Err(GenFailure::Fault(IrFault::UnmappedDataType(*data_type)));
            }
            let ghost before = parameters@;
            let t = map_data_type(data_type);
            parameters.push((t, name.clone()));
            assert(fv.parameters[i as int] == (*data_type, name@));
            assert(ir_parameters_view(parameters@) =~= ir_parameters_view(before).push((t, name@)));
            assert(fv.parameters.take(i + 1) =~= fv.parameters.take(i as int).push((*data_type, name@)));
            assert(ir_parameters(fv.parameters.take(i + 1)) =~= ir_parameters(fv.parameters.take(i as int)).push((t, name@)));
            i = i + 1;
        }
        assert(fv.parameters.take(i as int) =~= fv.parameters);
        assert(fv.parameters.skip(i as int) =~= Seq::<(DataType, Seq<char>)>::empty());
        self.parameters = parameters;
        self.return_type = match func.return_type {
            Some(d) => {
                if !has_ir_type(&d) {
                    return Err(GenFailure::Fault(IrFault::UnmappedDataType(d)));
                }
                map_data_type(&d)
            },
            None => IRType::Void,
        };
        self.variables = Vec::new();
        self.instructions = Vec::new();
        // The parameters are the first variables.
        let ghost ps = ir_parameters_view(self.parameters@);
        let ghost flipped = ps.map_values(|p: (IRType, Seq<char>)| (p.1, p.0));
        let mut j: usize = 0;
        let ghost st0 = self@;
        assert(bindings_view(self.variables@) =~= flipped.take(0));
        assert(st0.instructions =~= Seq::<SpecInstruction>::empty());
        while j < self.parameters.len()
            invariant
                j <= self.parameters.len(),
                self@ == (GenState { variables: self@.variables, ..st0 }),
                st0.instructions == Seq::<SpecInstruction>::empty(),
                ps == ir_parameters_view(self.parameters@),
                flipped == ps.map_values(|p: (IRType, Seq<char>)| (p.1, p.0)),
                bindings_view(self.variables@) == flipped.take(j as int),
            decreases self.parameters.len() - j,
        {
            let (t, name) = &self.parameters[j];
            let binding = (name.clone(), *t);
            assert(ps[j as int] == (*t, name@));
            let ghost before = self.variables@;
            self.variables.push(binding);
            assert(bindings_view(self.variables@) =~= bindings_view(before).push((name@, *t)));
            assert(flipped.take(j + 1) =~= flipped.take(j as int).push(flipped[j as int]));
            assert(self@ =~= GenState { variables: self@.variables, ..st0 });
            j = j + 1;
        }
        assert(flipped.take(j as int) =~= flipped);
        let ghost st1 = self@;
        assert(st1 =~= GenState {
            variables: parameter_variables(ir_parameters(fv.parameters)),
            instructions: Seq::empty(),
            function_name: fv.name,
            parameters: ir_parameters(fv.parameters),
            return_type: self.return_type,
            ..old(self)@
        });
        let ghost body = statements_view(func.body@);
        assert(gen_function(old(self)@, fv) == function_done(gen_statements(st1, body, 0)));
        let mut k: usize = 0;
        while k < func.body.len()
            invariant
                k <= func.body.len(),
                fv == func@,
                body == statements_view(func.body@),
                body == fv.body,
                gen_function(old(self)@, fv) == function_done(gen_statements(st1, body, 0)),
                gen_statements(st1, body, 0) == gen_statements(self@, body, k as int),
            decreases func.body.len() - k,
        {
            assert(body[k as int] == func.body@[k as int]@);
            match self.generate_statement(&func.body[k]) {
                Ok(()) => {},
                Err(e) => return Err(e),
            }
            k = k + 1;
        }
        let ir_function = IRFunction {
            name: self.function_name.clone(),
            parameters: duplicate_parameters(&self.parameters),
            return_type: self.return_type,
            body: duplicate_instructions(&self.instructions),
        };
        let ghost f = ir_function@;
        let ghost before = self@;
        self.functions.push(ir_function);
        assert(functions_view(self.functions@) =~= before.functions.push(f));
        assert(self@ =~= GenState { functions: before.functions.push(f), ..before });
        Ok(())
    }

    /// Lowers the functions of a program; the program is every function
    /// generated so far.
    fn generate(&mut self, top_levels: &Vec<TopLevel>) -> (r: Result<IRProgram, GenFailure>)
        ensures
            gen_agrees(
                r,
                final(self)@,
                gen_program(old(self)@, top_levels_view(top_levels@), 0),
                |p: IRProgram| p@,
            ),
    {
        let ghost tops = top_levels_view(top_levels@);
        let mut i: usize = 0;
        while i < top_levels.len()
            invariant
                i <= top_levels.len(),
                tops == top_levels_view(top_levels@),
                gen_program(old(self)@, tops, 0) == gen_program(self@, tops, i as int),
            decreases top_levels.len() - i,
        {
            match &top_levels[i] {
                TopLevel::Function(func) => {
                    match self.generate_function(func) {
                        Ok(()) => {},
                        Err(e) => return Err(e),
                    }
                },
            }
            i = i + 1;
        }
        Ok(IRProgram { functions: duplicate_functions(&self.functions) })
    }

    /// Lowers the functions of a program to IR. The program returned holds
    /// every function this generator has generated, those of earlier calls
    /// included. Generation must not meet a fault (see
    /// [`IrGenerator::try_generate_ir`]).
    pub fn generate_ir(&mut self, top_levels: &Vec<TopLevel>) -> (r: Result<IRProgram, IrError>)
        requires
            !(gen_program(old(self)@, top_levels_view(top_levels@), 0) is Fault),
        ensures
            match gen_program(old(self)@, top_levels_view(top_levels@), 0) {
                Gen::Done(fs, s) => r matches Ok(p) && p@ == fs && final(self)@ == s,
                Gen::Failed(x, s) => r matches Err(e) && e@ == x && final(self)@ == s,
                Gen::Fault(_) => false,
            },
    {
        match self.generate(top_levels) {
            Ok(p) => Ok(p),
            Err(GenFailure::Error(e)) => Err(e),
            Err(GenFailure::Fault(_)) => Err(IrError::UnimplementedExpression),
        }
    }

    /// Like [`IrGenerator::generate_ir`], for any program: reports the fault
    /// that stops generation when there is one.
    pub fn try_generate_ir(&mut self, top_levels: &Vec<TopLevel>) -> (r: Result<Result<IRProgram, IrError>, IrFault>)
        ensures
            match gen_program(old(self)@, top_levels_view(top_levels@), 0) {
                Gen::Done(fs, s) => r matches Ok(Ok(p)) && p@ == fs && final(self)@ == s,
                Gen::Failed(x, s) => r matches Ok(Err(e)) && e@ == x && final(self)@ == s,
                Gen::Fault(f) => r == Err::<Result<IRProgram, IrError>, IrFault>(f),
            },
    {
        match self.generate(top_levels) {
            Ok(p) => Ok(Ok(p)),
            Err(GenFailure::Error(e)) => Ok(Err(e)),
            Err(GenFailure::Fault(f)) => Err(f),
        }
    }
}

} // verus!
