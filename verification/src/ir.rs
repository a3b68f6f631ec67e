//! The intermediate representation: functions whose bodies are lists of
//! instructions, each of which may refer to the results of earlier ones.
//!
//! Float constants are held as their IEEE 754 bit patterns.

use vstd::prelude::*;

verus! {

/// The types of IR values.
#[derive(Debug, Clone, Copy, PartialEq, Eq, Structural)]
pub enum IRType {
    U8,
    I8,
    U16,
    I16,
    F16,
    U32,
    I32,
    F32,
    Bool,
    /// For instructions and functions that yield no value.
    Void,
}

/// What an instruction does.
#[derive(Debug, Clone, Copy, PartialEq, Eq, Structural)]
pub enum IROpcode {
    Add,
    Sub,
    Mul,
    Div,
    /// Remainder.
    Rem,
    Eq,
    Ne,
    Lt,
    Gt,
    Le,
    Ge,
    And,
    Or,
    Not,
    Load,
    Store,
    Jump,
    JumpIfFalse,
    Call,
    Return,
    ConstU8(u8),
    ConstI8(i8),
    ConstU16(u16),
    ConstI16(i16),
    /// The bit pattern of an IEEE 754 binary16 value.
    ConstF16(u16),
    ConstU32(u32),
    ConstI32(i32),
    /// The bit pattern of an IEEE 754 binary32 value.
    ConstF32(u32),
    ConstBool(bool),
    Nop,
}

/// A constant operand.
#[derive(Debug, Clone, Copy, PartialEq, Eq, Structural)]
pub enum IRConstant {
    U8(u8),
    I8(i8),
    U16(u16),
    I16(i16),
    /// The bit pattern of an IEEE 754 binary16 value.
    F16(u16),
    U32(u32),
    I32(i32),
    /// The bit pattern of an IEEE 754 binary32 value.
    F32(u32),
    Bool(bool),
}

/// An operand: the result of an earlier instruction (by its index in the
/// function body), a constant, or a named global.
#[derive(Debug, Clone, PartialEq)]
pub enum IRValue {
    Instruction(usize),
    Constant(IRConstant),
    GlobalVariable(String),
}

/// The model of an [`IRValue`].
pub enum SpecIRValue {
    Instruction(nat),
    Constant(IRConstant),
    GlobalVariable(Seq<char>),
}

impl View for IRValue {
    type V = SpecIRValue;

    open spec fn view(&self) -> SpecIRValue {
        match self {
            IRValue::Instruction(i) => SpecIRValue::Instruction(*i as nat),
            IRValue::Constant(c) => SpecIRValue::Constant(*c),
            IRValue::GlobalVariable(s) => SpecIRValue::GlobalVariable(s@),
        }
    }
}

impl IRValue {
    /// A copy of this value.
    pub fn duplicate(&self) -> (r: IRValue)
        ensures
            r@ == self@,
    {
        match self {
            IRValue::Instruction(i) => IRValue::Instruction(*i),
            IRValue::Constant(c) => IRValue::Constant(*c),
            IRValue::GlobalVariable(s) => IRValue::GlobalVariable(s.clone()),
        }
    }
}

/// One instruction.
#[derive(Debug, Clone, PartialEq)]
pub struct IRInstruction {
    pub opcode: IROpcode,
    pub result_type: IRType,
    pub operands: Vec<IRValue>,
}

/// The model of an [`IRInstruction`].
pub struct SpecInstruction {
    pub opcode: IROpcode,
    pub result_type: IRType,
    pub operands: Seq<SpecIRValue>,
}

/// The models of a sequence of operands.
pub open spec fn values_view(vs: Seq<IRValue>) -> Seq<SpecIRValue> {
    vs.map_values(|v: IRValue| v@)
}

impl View for IRInstruction {
    type V = SpecInstruction;

    open spec fn view(&self) -> SpecInstruction {
        SpecInstruction { opcode: self.opcode, result_type: self.result_type, operands: values_view(self.operands@) }
    }
}

/// The models of a sequence of instructions.
pub open spec fn instructions_view(is: Seq<IRInstruction>) -> Seq<SpecInstruction> {
    is.map_values(|i: IRInstruction| i@)
}

impl IRInstruction {
    /// A copy of this instruction.
    pub fn duplicate(&self) -> (r: IRInstruction)
        ensures
            r@ == self@,
    {
        let mut operands: Vec<IRValue> = Vec::new();
        let mut i: usize = 0;
        while i < self.operands.len()
            invariant
                i <= self.operands.len(),
                values_view(operands@) == values_view(self.operands@).take(i as int),
            decreases self.operands.len() - i,
        {
            let ghost before = operands@;
            operands.push(self.operands[i].duplicate());
            assert(values_view(operands@) =~= values_view(before).push(self.operands@[i as int]@));
            assert(values_view(self.operands@).take(i + 1) =~= values_view(self.operands@).take(i as int).push(
                self.operands@[i as int]@,
            ));
            i = i + 1;
        }
        assert(values_view(self.operands@).take(i as int) =~= values_view(self.operands@));
        IRInstruction { opcode: self.opcode, result_type: self.result_type, operands }
    }
}

/// Copies of a sequence of instructions.
pub fn duplicate_instructions(is: &Vec<IRInstruction>) -> (r: Vec<IRInstruction>)
    ensures
        instructions_view(r@) == instructions_view(is@),
{
    let mut r: Vec<IRInstruction> = Vec::new();
    let mut i: usize = 0;
    while i < is.len()
        invariant
            i <= is.len(),
            instructions_view(r@) == instructions_view(is@).take(i as int),
        decreases is.len() - i,
    {
        let ghost before = r@;
        r.push(is[i].duplicate());
        assert(instructions_view(r@) =~= instructions_view(before).push(is@[i as int]@));
        assert(instructions_view(is@).take(i + 1) =~= instructions_view(is@).take(i as int).push(is@[i as int]@));
        i = i + 1;
    }
    assert(instructions_view(is@).take(i as int) =~= instructions_view(is@));
    r
}

/// The models of a parameter list.
pub open spec fn ir_parameters_view(ps: Seq<(IRType, String)>) -> Seq<(IRType, Seq<char>)> {
    ps.map_values(|p: (IRType, String)| (p.0, p.1@))
}

/// Copies of a parameter list.
pub fn duplicate_parameters(ps: &Vec<(IRType, String)>) -> (r: Vec<(IRType, String)>)
    ensures
        ir_parameters_view(r@) == ir_parameters_view(ps@),
{
    let mut r: Vec<(IRType, String)> = Vec::new();
    let mut i: usize = 0;
    while i < ps.len()
        invariant
            i <= ps.len(),
            ir_parameters_view(r@) == ir_parameters_view(ps@).take(i as int),
        decreases ps.len() - i,
    {
        let ghost before = r@;
        let (t, name) = &ps[i];
        r.push((*t, name.clone()));
        assert(ir_parameters_view(r@) =~= ir_parameters_view(before).push((ps@[i as int].0, ps@[i as int].1@)));
        assert(ir_parameters_view(ps@).take(i + 1) =~= ir_parameters_view(ps@).take(i as int).push(
            (ps@[i as int].0, ps@[i as int].1@),
        ));
        i = i + 1;
    }
    assert(ir_parameters_view(ps@).take(i as int) =~= ir_parameters_view(ps@));
    r
}

/// One function.
#[derive(Debug, Clone, PartialEq)]
pub struct IRFunction {
    pub name: String,
    pub parameters: Vec<(IRType, String)>,
    pub return_type: IRType,
    pub body: Vec<IRInstruction>,
}

/// The model of an [`IRFunction`].
pub struct SpecIRFunction {
    pub name: Seq<char>,
    pub parameters: Seq<(IRType, Seq<char>)>,
    pub return_type: IRType,
    pub body: Seq<SpecInstruction>,
}

impl View for IRFunction {
    type V = SpecIRFunction;

    open spec fn view(&self) -> SpecIRFunction {
        SpecIRFunction {
            name: self.name@,
            parameters: ir_parameters_view(self.parameters@),
            return_type: self.return_type,
            body: instructions_view(self.body@),
        }
    }
}

/// The models of a sequence of functions.
pub open spec fn functions_view(fs: Seq<IRFunction>) -> Seq<SpecIRFunction> {
    fs.map_values(|f: IRFunction| f@)
}

impl IRFunction {
    /// A copy of this function.
    pub fn duplicate(&self) -> (r: IRFunction)
        ensures
            r@ == self@,
    {
        IRFunction {
            name: self.name.clone(),
            parameters: duplicate_parameters(&self.parameters),
            return_type: self.return_type,
            body: duplicate_instructions(&self.body),
        }
    }
}

/// Copies of a sequence of functions.
pub fn duplicate_functions(fs: &Vec<IRFunction>) -> (r: Vec<IRFunction>)
    ensures
        functions_view(r@) == functions_view(fs@),
{
    let mut r: Vec<IRFunction> = Vec::new();
    let mut i: usize = 0;
    while i < fs.len()
        invariant
            i <= fs.len(),
            functions_view(r@) == functions_view(fs@).take(i as int),
        decreases fs.len() - i,
    {
        let ghost before = r@;
        r.push(fs[i].duplicate());
        assert(functions_view(r@) =~= functions_view(before).push(fs@[i as int]@));
        assert(functions_view(fs@).take(i + 1) =~= functions_view(fs@).take(i as int).push(fs@[i as int]@));
        i = i + 1;
    }
    assert(functions_view(fs@).take(i as int) =~= functions_view(fs@));
    r
}

/// A program: its functions.
#[derive(Debug, Clone, PartialEq)]
pub struct IRProgram {
    pub functions: Vec<IRFunction>,
}

impl View for IRProgram {
    type V = Seq<SpecIRFunction>;

    open spec fn view(&self) -> Seq<SpecIRFunction> {
        functions_view(self.functions@)
    }
}

} // verus!
