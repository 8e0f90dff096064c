//! An in-memory model of the code-generation interface that finished
//! syntax trees are handed to.
//!
//! The real backend lives outside this crate and works through raw
//! handles; here every handle is a plain number and everything a
//! builder emits is kept as data, so the emission logic can be
//! verified.  A front end drives this model exactly as it would drive
//! the real thing, and the embedding application translates the
//! recorded instructions into its backend of choice.

use vstd::prelude::*;

verus! {

/// Something that can hand out the raw reference it stands for.
pub trait LLVMRef<R> {
    /// The reference this value carries.
    spec fn spec_ref(&self) -> R;

    /// Hand the raw reference out.
    fn to_ref(&self) -> (r: R)
        ensures
            r == self.spec_ref(),
    ;
}

/// A handle to one value of the program being built.
#[derive(Debug, Clone, Copy, PartialEq, Eq)]
pub struct Value {
    value: u64,
}

impl Value {
    /// The raw handle.
    pub closed spec fn raw(self) -> u64 {
        self.value
    }

    /// Wrap a raw value handle.
    pub fn from_ref(value: u64) -> (r: Value)
        ensures
            r.raw() == value,
    {
        Value { value }
    }
}

impl LLVMRef<u64> for Value {
    closed spec fn spec_ref(&self) -> u64 {
        self.value
    }

    fn to_ref(&self) -> u64 {
        self.value
    }
}

/// A handle to one basic block of a function being built.
#[derive(Debug, Clone, Copy, PartialEq, Eq)]
pub struct BasicBlock {
    block: u64,
}

impl BasicBlock {
    /// The raw handle.
    pub closed spec fn raw(self) -> u64 {
        self.block
    }

    /// Wrap a raw basic-block handle.
    pub fn from_ref(block_ref: u64) -> (r: BasicBlock)
        ensures
            r.raw() == block_ref,
    {
        BasicBlock { block: block_ref }
    }
}

impl LLVMRef<u64> for BasicBlock {
    closed spec fn spec_ref(&self) -> u64 {
        self.block
    }

    fn to_ref(&self) -> u64 {
        self.block
    }
}

/// The context every builder and module is created in.  The model
/// keeps no hidden state, so the context is a plain marker.
#[derive(Debug)]
pub struct Context {
    owned: bool,
}

impl Context {
    /// Whether this context is the owner of what was built in it.
    pub closed spec fn is_owned(self) -> bool {
        self.owned
    }

    /// A fresh context that owns what is built in it.
    pub fn new() -> (c: Context)
        ensures
            c.is_owned(),
    {
        Context { owned: true }
    }
}

/// A type of the program being built.
#[derive(Debug, PartialEq)]
pub enum TypeRef {
    Int(u32),
    Float,
    Double,
    FP128,
    X86FP80,
    X86MMX,
    Void,
    Array(Box<TypeRef>, u32),
    Pointer(Box<TypeRef>, u32),
    Vector(Box<TypeRef>, u32),
}

/// The 1-bit integer type.
pub fn int1_type(context: &Context) -> (r: TypeRef)
    ensures
        r == TypeRef::Int(1),
{
    TypeRef::Int(1)
}

/// The 8-bit integer type.
pub fn int8_type(context: &Context) -> (r: TypeRef)
    ensures
        r == TypeRef::Int(8),
{
    TypeRef::Int(8)
}

/// The 16-bit integer type.
pub fn int16_type(context: &Context) -> (r: TypeRef)
    ensures
        r == TypeRef::Int(16),
{
    TypeRef::Int(16)
}

/// The 32-bit integer type.
pub fn int32_type(context: &Context) -> (r: TypeRef)
    ensures
        r == TypeRef::Int(32),
{
    TypeRef::Int(32)
}

/// The 64-bit integer type.
pub fn int64_type(context: &Context) -> (r: TypeRef)
    ensures
        r == TypeRef::Int(64),
{
    TypeRef::Int(64)
}

/// The single-precision floating type.
pub fn float_type(context: &Context) -> (r: TypeRef)
    ensures
        r == TypeRef::Float,
{
    TypeRef::Float
}

/// The double-precision floating type.
pub fn double_type(context: &Context) -> (r: TypeRef)
    ensures
        r == TypeRef::Double,
{
    TypeRef::Double
}

/// The 128-bit floating type.
pub fn fp128_type(context: &Context) -> (r: TypeRef)
    ensures
        r == TypeRef::FP128,
{
    TypeRef::FP128
}

/// The x87 80-bit floating type.
pub fn x86fp80_type(context: &Context) -> (r: TypeRef)
    ensures
        r == TypeRef::X86FP80,
{
    TypeRef::X86FP80
}

/// The MMX vector type.
pub fn x86mmx_type(context: &Context) -> (r: TypeRef)
    ensures
        r == TypeRef::X86MMX,
{
    TypeRef::X86MMX
}

/// The empty type.
pub fn void_type(context: &Context) -> (r: TypeRef)
    ensures
        r == TypeRef::Void,
{
    TypeRef::Void
}

/// An integer type of the given width.
pub fn int_type(size: u32, context: &Context) -> (r: TypeRef)
    ensures
        r == TypeRef::Int(size),
{
    TypeRef::Int(size)
}

/// An array of `size` elements.
pub fn array_type(element_type: TypeRef, size: u32) -> (r: TypeRef)
    ensures
        r == TypeRef::Array(Box::new(element_type), size),
{
    TypeRef::Array(Box::new(element_type), size)
}

/// A pointer into the given address space.
pub fn pointer_type(element_type: TypeRef, address_space: u32) -> (r: TypeRef)
    ensures
        r == TypeRef::Pointer(Box::new(element_type), address_space),
{
    TypeRef::Pointer(Box::new(element_type), address_space)
}

/// A vector of `size` elements.
pub fn vector_type(element_type: TypeRef, size: u32) -> (r: TypeRef)
    ensures
        r == TypeRef::Vector(Box::new(element_type), size),
{
    TypeRef::Vector(Box::new(element_type), size)
}

/// One instruction a builder can emit.
#[derive(Debug, Clone, Copy, PartialEq, Eq)]
pub enum Instr {
    /// Add the two referenced values.
    Add(u64, u64),
    /// Return the referenced value.
    Ret(u64),
    /// Return nothing.
    RetVoid,
}

/// One emitted instruction: the block it went into, the handle of the
/// value it produced, the instruction itself, and the name it was
/// given.
#[derive(Debug, PartialEq)]
pub struct Emitted {
    pub block: u64,
    pub value: u64,
    pub instr: Instr,
    pub name: String,
}

/// The instruction builder.  It stands at one basic block at a time
/// and keeps, in order, everything it has emitted; the handle of each
/// emitted value is its index in that log.
#[derive(Debug)]
pub struct Builder {
    position: Option<u64>,
    emitted: Vec<Emitted>,
}

impl Builder {
    /// The block the builder stands at, if it was positioned.
    pub closed spec fn pos(self) -> Option<u64> {
        self.position
    }

    /// Everything emitted so far, in order.
    pub closed spec fn log(self) -> Seq<Emitted> {
        self.emitted@
    }

    /// A fresh builder: positioned nowhere, nothing emitted.
    pub fn new(context: &Context) -> (b: Builder)
        ensures
            b.pos() is None,
            b.log() == Seq::<Emitted>::empty(),
    {
        Builder { position: None, emitted: Vec::new() }
    }

    /// Stand at the end of the given basic block; what was already
    /// emitted stays as it is.
    pub fn move_to_end(&mut self, basic_block: BasicBlock)
        ensures
            final(self).pos() == Some(basic_block.raw()),
            final(self).log() == old(self).log(),
    {
        self.position = Some(basic_block.to_ref());
    }

    /// Emit a return without a value into the current block.
    pub fn return_void(&mut self) -> (r: Value)
        requires
            old(self).pos() is Some,
        ensures
            final(self).pos() == old(self).pos(),
            r.raw() == old(self).log().len(),
            final(self).log().len() == old(self).log().len() + 1,
            final(self).log().drop_last() == old(self).log(),
            final(self).log().last().block == old(self).pos().unwrap(),
            final(self).log().last().value == r.raw(),
            final(self).log().last().instr == Instr::RetVoid,
    {
        self.emit(Instr::RetVoid, String::new())
    }

    /// Emit a return of `v` into the current block.
    pub fn return_value(&mut self, v: Value) -> (r: Value)
        requires
            old(self).pos() is Some,
        ensures
            final(self).pos() == old(self).pos(),
            r.raw() == old(self).log().len(),
            final(self).log().len() == old(self).log().len() + 1,
            final(self).log().drop_last() == old(self).log(),
            final(self).log().last().block == old(self).pos().unwrap(),
            final(self).log().last().value == r.raw(),
            final(self).log().last().instr == Instr::Ret(v.raw()),
    {
        self.emit(Instr::Ret(v.to_ref()), String::new())
    }

    /// Emit an addition of `lhs` and `rhs` into the current block,
    /// under the given name.
    pub fn add(&mut self, lhs: Value, rhs: Value, name: &str) -> (r: Value)
        requires
            old(self).pos() is Some,
        ensures
            final(self).pos() == old(self).pos(),
            r.raw() == old(self).log().len(),
            final(self).log().len() == old(self).log().len() + 1,
            final(self).log().drop_last() == old(self).log(),
            final(self).log().last().block == old(self).pos().unwrap(),
            final(self).log().last().value == r.raw(),
            final(self).log().last().instr == Instr::Add(lhs.raw(), rhs.raw()),
            final(self).log().last().name@ == name@,
    {
        self.emit(Instr::Add(lhs.to_ref(), rhs.to_ref()), name.to_owned())
    }

    /// Append one instruction to the log, producing its value handle.
    fn emit(&mut self, instr: Instr, name: String) -> (r: Value)
        requires
            old(self).pos() is Some,
        ensures
            final(self).pos() == old(self).pos(),
            r.raw() == old(self).log().len(),
            final(self).log().len() == old(self).log().len() + 1,
            final(self).log().drop_last() == old(self).log(),
            final(self).log().last().block == old(self).pos().unwrap(),
            final(self).log().last().value == r.raw(),
            final(self).log().last().instr == instr,
            final(self).log().last().name == name,
    {
        let block = match self.position {
            Some(b) => b,
            None => 0,
        };
        let id = self.emitted.len() as u64;
        let record = Emitted { block, value: id, instr, name };
        self.emitted.push(record);
        proof {
            assert(final(self).log().drop_last() =~= old(self).log());
        }
        Value::from_ref(id)
    }
}

/// A module being built: its name and whether this handle still owns
/// it.
#[derive(Debug)]
pub struct Module {
    name: String,
    owned: bool,
}

impl Module {
    /// The module's name.
    pub closed spec fn spec_name(self) -> Seq<char> {
        self.name@
    }

    /// Whether this handle still owns the module.
    pub closed spec fn is_owned(self) -> bool {
        self.owned
    }

    /// A fresh module named `id`.
    pub fn new(id: &str, context: &Context) -> (m: Module)
        ensures
            m.spec_name() == id@,
            m.is_owned(),
    {
        Module { name: id.to_owned(), owned: true }
    }

    /// Give the module up: its contents now belong to whoever received
    /// them.
    pub fn unown(&mut self)
        ensures
            !final(self).is_owned(),
            final(self).spec_name() == old(self).spec_name(),
    {
        self.owned = false;
    }

    /// Check the module.  Everything a model module can hold is
    /// well-formed by construction, so this always passes.
    pub fn verify(&self) -> (r: Result<(), String>)
        ensures
            r is Ok,
    {
        Ok(())
    }

    /// The module's name, for callers that want to print it.
    pub fn name_text(&self) -> (r: &str)
        ensures
            r@ == self.spec_name(),
    {
        self.name.as_str()
    }
}

/// A function being declared in a module: its name, parameter types,
/// return type, and how many basic blocks it has been given.
#[derive(Debug)]
pub struct Function {
    name: String,
    params: Vec<TypeRef>,
    ret: TypeRef,
    blocks: u64,
}

impl Function {
    /// The function's name.
    pub closed spec fn spec_name(self) -> Seq<char> {
        self.name@
    }

    /// The declared parameter types.
    pub closed spec fn spec_params(self) -> Seq<TypeRef> {
        self.params@
    }

    /// The declared return type.
    pub closed spec fn spec_ret(self) -> TypeRef {
        self.ret
    }

    /// How many basic blocks were appended.
    pub closed spec fn blocks_made(self) -> u64 {
        self.blocks
    }

    /// Declare a function in `module` with the given parameter and
    /// return types.
    pub fn new(module: &Module, name: &str, args: Vec<TypeRef>, ret: TypeRef) -> (f: Function)
        requires
            args@.len() < 0x1_0000_0000,
        ensures
            f.spec_name() == name@,
            f.spec_params() == args@,
            f.spec_ret() == ret,
            f.blocks_made() == 0,
    {
        Function { name: name.to_owned(), params: args, ret, blocks: 0 }
    }

    /// Append a fresh basic block to the function.
    pub fn new_basic_block(&mut self, name: &str) -> (r: BasicBlock)
        requires
            old(self).blocks_made() < u64::MAX,
        ensures
            r.raw() == old(self).blocks_made(),
            final(self).blocks_made() == old(self).blocks_made() + 1,
            final(self).spec_name() == old(self).spec_name(),
            final(self).spec_params() == old(self).spec_params(),
            final(self).spec_ret() == old(self).spec_ret(),
    {
        let id = self.blocks;
        self.blocks = self.blocks + 1;
        BasicBlock::from_ref(id)
    }

    /// How many parameters the function takes.
    pub fn arity(&self) -> (r: u32)
        requires
            self.spec_params().len() < 0x1_0000_0000,
        ensures
            r as int == self.spec_params().len(),
    {
        self.params.len() as u32
    }

    /// Check the function.  A model function is well-formed by
    /// construction, so this always passes.
    pub fn verify(&self) -> (r: Result<(), String>)
        ensures
            r is Ok,
    {
        Ok(())
    }
}

/// A plain value that knows how to become a constant of the program
/// being built.
pub trait VMRepresentation {
    /// The bits the constant carries.
    spec fn repr_bits(self) -> u64;

    /// Turn the value into a constant.  Model constants are uniqued by
    /// their bits: the handle is the bit pattern itself.
    fn to_representation(self, context: &Context) -> (r: Value)
        ensures
            r.raw() == self.repr_bits(),
    ;
}

impl VMRepresentation for bool {
    closed spec fn repr_bits(self) -> u64 {
        if self {
            1
        } else {
            0
        }
    }

    fn to_representation(self, context: &Context) -> Value {
        Value::from_ref(if self { 1 } else { 0 })
    }
}

impl VMRepresentation for u8 {
    closed spec fn repr_bits(self) -> u64 {
        self as u64
    }

    fn to_representation(self, context: &Context) -> Value {
        Value::from_ref(self as u64)
    }
}

impl VMRepresentation for i8 {
    closed spec fn repr_bits(self) -> u64 {
        self as u64
    }

    fn to_representation(self, context: &Context) -> Value {
        Value::from_ref(self as u64)
    }
}

impl VMRepresentation for u16 {
    closed spec fn repr_bits(self) -> u64 {
        self as u64
    }

    fn to_representation(self, context: &Context) -> Value {
        Value::from_ref(self as u64)
    }
}

impl VMRepresentation for i16 {
    closed spec fn repr_bits(self) -> u64 {
        self as u64
    }

    fn to_representation(self, context: &Context) -> Value {
        Value::from_ref(self as u64)
    }
}

impl VMRepresentation for u32 {
    closed spec fn repr_bits(self) -> u64 {
        self as u64
    }

    fn to_representation(self, context: &Context) -> Value {
        Value::from_ref(self as u64)
    }
}

impl VMRepresentation for i32 {
    closed spec fn repr_bits(self) -> u64 {
        self as u64
    }

    fn to_representation(self, context: &Context) -> Value {
        Value::from_ref(self as u64)
    }
}

impl VMRepresentation for u64 {
    closed spec fn repr_bits(self) -> u64 {
        self
    }

    fn to_representation(self, context: &Context) -> Value {
        Value::from_ref(self)
    }
}

impl VMRepresentation for i64 {
    closed spec fn repr_bits(self) -> u64 {
        self as u64
    }

    fn to_representation(self, context: &Context) -> Value {
        Value::from_ref(self as u64)
    }
}

impl VMRepresentation for usize {
    closed spec fn repr_bits(self) -> u64 {
        self as u64
    }

    fn to_representation(self, context: &Context) -> Value {
        Value::from_ref(self as u64)
    }
}

impl VMRepresentation for isize {
    closed spec fn repr_bits(self) -> u64 {
        self as u64
    }

    fn to_representation(self, context: &Context) -> Value {
        Value::from_ref(self as u64)
    }
}

impl VMRepresentation for char {
    closed spec fn repr_bits(self) -> u64 {
        self as u64
    }

    fn to_representation(self, context: &Context) -> Value {
        Value::from_ref(self as u64)
    }
}

} // verus!
