use strawberry::vm::{
    array_type, double_type, int8_type, int_type, pointer_type, vector_type, BasicBlock, Builder,
    Context, Function, Instr, LLVMRef, Module, TypeRef, Value, VMRepresentation,
};

#[test]
fn value_and_block_handles_round_trip() {
    let v = Value::from_ref(42);
    assert_eq!(v.to_ref(), 42);
    let b = BasicBlock::from_ref(7);
    assert_eq!(b.to_ref(), 7);
}

#[test]
fn type_constructors() {
    let context = Context::new();
    assert_eq!(int8_type(&context), TypeRef::Int(8));
    assert_eq!(int_type(13, &context), TypeRef::Int(13));
    assert_eq!(double_type(&context), TypeRef::Double);
    assert_eq!(
        array_type(int8_type(&context), 4),
        TypeRef::Array(Box::new(TypeRef::Int(8)), 4)
    );
    assert_eq!(
        pointer_type(double_type(&context), 0),
        TypeRef::Pointer(Box::new(TypeRef::Double), 0)
    );
    assert_eq!(
        vector_type(int_type(32, &context), 8),
        TypeRef::Vector(Box::new(TypeRef::Int(32)), 8)
    );
}

#[test]
fn builder_emits_in_order() {
    let context = Context::new();
    let module = Module::new("strawberry", &context);
    assert_eq!(module.name_text(), "strawberry");

    let mut function = Function::new(
        &module,
        "foo",
        vec![int8_type(&context)],
        double_type(&context),
    );
    assert_eq!(function.arity(), 1);
    assert!(function.verify().is_ok());

    let block = function.new_basic_block("entry");
    let mut builder = Builder::new(&context);
    builder.move_to_end(block);

    let lhs = 13u8.to_representation(&context);
    let rhs = 37u8.to_representation(&context);
    assert_eq!(lhs.to_ref(), 13);
    assert_eq!(rhs.to_ref(), 37);

    let summation = builder.add(lhs, rhs, "summation");
    let ret = builder.return_value(summation);
    assert_eq!(summation.to_ref(), 0);
    assert_eq!(ret.to_ref(), 1);

    assert!(module.verify().is_ok());
}

#[test]
fn builder_log_records_instructions() {
    let context = Context::new();
    let mut builder = Builder::new(&context);
    builder.move_to_end(BasicBlock::from_ref(5));
    let a = builder.add(Value::from_ref(1), Value::from_ref(2), "a");
    let r = builder.return_void();
    assert_eq!(a.to_ref(), 0);
    assert_eq!(r.to_ref(), 1);
}

#[test]
fn representation_bits() {
    let context = Context::new();
    assert_eq!(true.to_representation(&context).to_ref(), 1);
    assert_eq!(false.to_representation(&context).to_ref(), 0);
    assert_eq!(200u8.to_representation(&context).to_ref(), 200);
    // A negative value is carried as its sign-extended bit pattern.
    assert_eq!((-1i8).to_representation(&context).to_ref(), u64::MAX);
    assert_eq!('A'.to_representation(&context).to_ref(), 65);
    assert_eq!(1234567890123u64.to_representation(&context).to_ref(), 1234567890123);
}

#[test]
fn module_ownership() {
    let context = Context::new();
    let mut module = Module::new("m", &context);
    module.unown();
    assert!(module.verify().is_ok());
}

#[test]
fn instruction_equality() {
    assert_eq!(Instr::Add(1, 2), Instr::Add(1, 2));
    assert_ne!(Instr::Add(1, 2), Instr::Ret(1));
}
