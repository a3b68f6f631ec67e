use piru::ast::{BinaryOp, DataType, TopLevel};
use piru::ir::{IRConstant, IRFunction, IRInstruction, IROpcode, IRType, IRValue};
use piru::ir_gen::{map_data_type, IrError, IrFault, IrGenerator};
use piru::lexer::Tokenizer;
use piru::parser::Parser;

fn program(code: &str) -> Vec<TopLevel> {
    Parser::new(Tokenizer::new(code).tokenize().unwrap()).parse().unwrap()
}

fn body_of(code: &str) -> Vec<IRInstruction> {
    let mut generator = IrGenerator::new();
    let ir = generator.generate_ir(&program(code)).unwrap();
    assert_eq!(ir.functions.len(), 1);
    ir.functions[0].body.clone()
}

fn global(name: &str) -> IRValue {
    IRValue::GlobalVariable(name.to_string())
}

fn ins(opcode: IROpcode, result_type: IRType, operands: Vec<IRValue>) -> IRInstruction {
    IRInstruction { opcode, result_type, operands }
}

#[test]
fn declarations_store_and_return() {
    let mut generator = IrGenerator::new();
    let ir = generator.generate_ir(&program("fn main(u8 p) -> i32 { u8 a = 1 i32 b = 2 return(b) }")).unwrap();
    assert_eq!(
        ir.functions,
        vec![IRFunction {
            name: "main".to_string(),
            parameters: vec![(IRType::U8, "p".to_string())],
            return_type: IRType::I32,
            body: vec![
                ins(IROpcode::Store, IRType::Void, vec![global("a"), IRValue::Constant(IRConstant::U8(1))]),
                ins(IROpcode::Store, IRType::Void, vec![global("b"), IRValue::Constant(IRConstant::I32(2))]),
                ins(IROpcode::Return, IRType::Void, vec![global("b")]),
            ],
        }]
    );
}

#[test]
fn increment_loads_adds_and_stores() {
    assert_eq!(
        body_of("fn f() { i32 x = 1 x++ x-- }"),
        vec![
            ins(IROpcode::Store, IRType::Void, vec![global("x"), IRValue::Constant(IRConstant::I32(1))]),
            ins(IROpcode::Load, IRType::I32, vec![global("x")]),
            ins(IROpcode::Add, IRType::I32, vec![IRValue::Instruction(1), IRValue::Constant(IRConstant::I32(1))]),
            ins(IROpcode::Store, IRType::Void, vec![global("x"), IRValue::Instruction(2)]),
            ins(IROpcode::Load, IRType::I32, vec![global("x")]),
            ins(IROpcode::Sub, IRType::I32, vec![IRValue::Instruction(4), IRValue::Constant(IRConstant::I32(1))]),
            ins(IROpcode::Store, IRType::Void, vec![global("x"), IRValue::Instruction(5)]),
        ]
    );
}

#[test]
fn parameters_are_variables() {
    assert_eq!(
        body_of("fn f(u8 p) { p++ }"),
        vec![
            ins(IROpcode::Load, IRType::U8, vec![global("p")]),
            ins(IROpcode::Add, IRType::U8, vec![IRValue::Instruction(0), IRValue::Constant(IRConstant::I32(1))]),
            ins(IROpcode::Store, IRType::Void, vec![global("p"), IRValue::Instruction(1)]),
        ]
    );
}

#[test]
fn a_later_declaration_changes_the_type() {
    assert_eq!(
        body_of("fn f() { u8 x = 1 i32 x = 2 x++ }")[3],
        ins(IROpcode::Add, IRType::I32, vec![IRValue::Instruction(2), IRValue::Constant(IRConstant::I32(1))])
    );
}

#[test]
fn arithmetic_refers_to_earlier_results() {
    assert_eq!(
        body_of("fn f() { i32 x = 1 + 2 * y }"),
        vec![
            ins(IROpcode::Mul, IRType::I32, vec![IRValue::Constant(IRConstant::I32(2)), global("y")]),
            ins(IROpcode::Add, IRType::I32, vec![IRValue::Constant(IRConstant::I32(1)), IRValue::Instruction(0)]),
            ins(IROpcode::Store, IRType::Void, vec![global("x"), IRValue::Instruction(1)]),
        ]
    );
    assert_eq!(
        body_of("fn f() { x = a - b / c }")[..2],
        [
            ins(IROpcode::Div, IRType::I32, vec![global("b"), global("c")]),
            ins(IROpcode::Sub, IRType::I32, vec![global("a"), IRValue::Instruction(0)]),
        ]
    );
}

#[test]
fn if_jumps_to_its_labels() {
    assert_eq!(
        body_of("fn f() { if (c) { return(1) } elif (d) { return(2) } else { return(3) } if (c) { } }"),
        vec![
            ins(IROpcode::JumpIfFalse, IRType::Void, vec![global("c"), global("L2")]),
            ins(IROpcode::Return, IRType::Void, vec![IRValue::Constant(IRConstant::I32(1))]),
            ins(IROpcode::Jump, IRType::Void, vec![global("L3")]),
            ins(IROpcode::JumpIfFalse, IRType::Void, vec![global("c"), global("L5")]),
            ins(IROpcode::Jump, IRType::Void, vec![global("L6")]),
        ]
    );
}

#[test]
fn labels_count_on_across_functions() {
    let mut generator = IrGenerator::new();
    let code = "fn f() { if (a) { } if (a) { } if (a) { } } fn g() { if (b) { } }";
    let ir = generator.generate_ir(&program(code)).unwrap();
    assert_eq!(ir.functions[1].body[0], ins(IROpcode::JumpIfFalse, IRType::Void, vec![global("b"), global("L11")]));
}

#[test]
fn loops_and_calls_lower_to_nothing() {
    assert_eq!(body_of("fn f() { while (x) { x++ } for (i32 i = 0 i < 1 i++) { } g(1) }"), vec![]);
}

#[test]
fn errors() {
    let generate = |code: &str| IrGenerator::new().generate_ir(&program(code));
    assert_eq!(generate("fn f() { x++ }"), Err(IrError::VariableNotFound("x".to_string())));
    assert_eq!(generate("fn f() { y-- }"), Err(IrError::VariableNotFound("y".to_string())));
    assert_eq!(generate("fn f() { x = 1 % 2 }"), Err(IrError::UnsupportedBinaryOperator(BinaryOp::Modulo)));
    assert_eq!(generate("fn f() { x = true }"), Err(IrError::UnimplementedExpression));
    assert_eq!(generate("fn f() { return(g()) }"), Err(IrError::UnimplementedExpression));
}

#[test]
fn faults_are_reported_by_try_generate_ir() {
    let try_generate = |code: &str| IrGenerator::new().try_generate_ir(&program(code));
    assert_eq!(try_generate("fn f() { f32 x = 1.5 }"), Err(IrFault::UnmappedDataType(DataType::F32)));
    assert_eq!(try_generate("fn f(u8 a, bool b) { }"), Err(IrFault::UnmappedDataType(DataType::Bool)));
    assert_eq!(try_generate("fn f() -> u16 { }"), Err(IrFault::UnmappedDataType(DataType::U16)));
    // An error met first means the fault is never reached.
    assert_eq!(
        try_generate("fn f() { x++ f32 y = 1.5 }"),
        Ok(Err(IrError::VariableNotFound("x".to_string())))
    );
    assert!(matches!(try_generate("fn f() { u8 x = 1 }"), Ok(Ok(_))));
}

#[test]
fn every_run_returns_every_function_generated_so_far() {
    let mut generator = IrGenerator::new();
    let first = generator.generate_ir(&program("fn a() { }")).unwrap();
    assert_eq!(first.functions.len(), 1);
    let second = generator.generate_ir(&program("fn b() { } fn c() { }")).unwrap();
    let names: Vec<&str> = second.functions.iter().map(|f| f.name.as_str()).collect();
    assert_eq!(names, vec!["a", "b", "c"]);
}

#[test]
fn a_failed_run_keeps_what_it_had_generated() {
    let mut generator = IrGenerator::new();
    assert!(generator.generate_ir(&program("fn a() { } fn b() { x++ }")).is_err());
    let again = generator.generate_ir(&program("fn c() { }")).unwrap();
    let names: Vec<&str> = again.functions.iter().map(|f| f.name.as_str()).collect();
    assert_eq!(names, vec!["a", "c"]);
}

#[test]
fn data_types_with_an_ir_type() {
    assert_eq!(map_data_type(&DataType::U8), IRType::U8);
    assert_eq!(map_data_type(&DataType::I32), IRType::I32);
}

#[test]
fn instruction_operands_only_refer_to_earlier_instructions() {
    let body = body_of("fn f() { i32 x = (1 + 2) * (3 - x) / y x++ x = x * x - 1 if (x) { x-- } }");
    for (index, instruction) in body.iter().enumerate() {
        for operand in &instruction.operands {
            if let IRValue::Instruction(i) = operand {
                assert!(*i < index);
            }
        }
    }
}

#[test]
fn generated_functions_carry_mapped_parameters_and_return_types() {
    let mut generator = IrGenerator::new();
    let ir = generator.generate_ir(&program("fn a(i32 x, u8 y) -> u8 { } fn b() { }")).unwrap();
    assert_eq!(ir.functions.len(), 2);
    assert_eq!(ir.functions[0].name, "a".to_string());
    assert_eq!(
        ir.functions[0].parameters,
        vec![(IRType::I32, "x".to_string()), (IRType::U8, "y".to_string())]
    );
    assert_eq!(ir.functions[0].return_type, IRType::U8);
    assert_eq!(ir.functions[1].name, "b".to_string());
    assert_eq!(ir.functions[1].parameters, vec![]);
    assert_eq!(ir.functions[1].return_type, IRType::Void);
}

#[test]
fn a_failed_statement_keeps_the_instructions_before_it() {
    let mut generator = IrGenerator::new();
    let err = generator.generate_ir(&program("fn f() { i32 x = 1 + 2 x = 3 y++ }"));
    assert_eq!(err, Err(IrError::VariableNotFound("y".to_string())));
    let again = generator.generate_ir(&program("fn g() { }")).unwrap();
    assert_eq!(again.functions.len(), 1);
    assert_eq!(again.functions[0].name, "g".to_string());
}

#[test]
fn error_messages() {
    assert_eq!(IrError::VariableNotFound("x".to_string()).message(), "Variable not found: x");
    assert_eq!(
        IrError::UnsupportedBinaryOperator(BinaryOp::Modulo).message(),
        "Unsupported binary operator: %"
    );
    assert_eq!(
        IrError::UnsupportedBinaryOperator(BinaryOp::Power).message(),
        "Unsupported binary operator: **"
    );
    assert_eq!(IrError::UnimplementedExpression.message(), "Unimplemented expression type");
    let mut generator = IrGenerator::new();
    let err = generator.generate_ir(&program("fn f() { x-- }")).unwrap_err();
    assert_eq!(err.message(), "Variable not found: x");
}
