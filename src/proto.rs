use vstd::prelude::*;

verus! {

/// A register number within one call frame.
pub type Register = u8;

/// A position in the upvalue list of the enclosing closure.
pub type UpValIndex = u8;

/// How one captured variable is resolved when a closure is instantiated.
#[derive(Debug, Clone, Copy, PartialEq, Eq, Structural)]
pub enum UpValDesc {
    /// Capture register `r` of the frame running the enclosing function.
    ParentLocal(Register),
    /// Share upvalue `i` of the closure whose code contains the literal.
    Outer(UpValIndex),
}

/// The immutable compiled form of one function body.
///
/// `V` is the type of constant values and `Op` the instruction type; both
/// belong to collaborators and are only carried here.
pub struct FunctionProto<V, Op> {
    fixed_params: u8,
    has_varargs: bool,
    max_register: u8,
    constants: Vec<V>,
    opcodes: Vec<Op>,
    upvalues: Vec<UpValDesc>,
    functions: Vec<FunctionProto<V, Op>>,
}

impl<V, Op> FunctionProto<V, Op> {
    /// Every function uses at least one register, and its fixed parameters
    /// sit in registers it uses.
    #[verifier::type_invariant]
    closed spec fn registers_ok(self) -> bool {
        self.max_register >= 1 && self.fixed_params <= self.max_register
    }

    /// Number of fixed parameters.
    pub closed spec fn spec_fixed_params(&self) -> u8 {
        self.fixed_params
    }

    /// Whether the function takes extra arguments beyond the fixed ones.
    pub closed spec fn spec_has_varargs(&self) -> bool {
        self.has_varargs
    }

    /// The largest register the body uses.
    pub closed spec fn spec_max_register(&self) -> u8 {
        self.max_register
    }

    /// The constant table, in order.
    pub closed spec fn spec_constants(&self) -> Seq<V> {
        self.constants@
    }

    /// The instructions, in order.
    pub closed spec fn spec_opcodes(&self) -> Seq<Op> {
        self.opcodes@
    }

    /// The upvalue descriptors, in capture order.
    pub closed spec fn spec_upvalues(&self) -> Seq<UpValDesc> {
        self.upvalues@
    }

    /// The nested prototypes, in order.
    pub closed spec fn spec_functions(&self) -> Seq<FunctionProto<V, Op>> {
        self.functions@
    }

    /// Builds a prototype with every field fixed. A register layout with no
    /// register, or with more fixed parameters than registers, is a compiler
    /// bug and is ruled out by the precondition.
    pub fn new(
        fixed_params: u8,
        has_varargs: bool,
        max_register: u8,
        constants: Vec<V>,
        opcodes: Vec<Op>,
        upvalues: Vec<UpValDesc>,
        functions: Vec<FunctionProto<V, Op>>,
    ) -> (r: Self)
        requires
            max_register >= 1,
            fixed_params <= max_register,
        ensures
            r.spec_fixed_params() == fixed_params,
            r.spec_has_varargs() == has_varargs,
            r.spec_max_register() == max_register,
            r.spec_constants() == constants@,
            r.spec_opcodes() == opcodes@,
            r.spec_upvalues() == upvalues@,
            r.spec_functions() == functions@,
            r.spec_max_register() >= 1,
            r.spec_fixed_params() <= r.spec_max_register(),
    {
        FunctionProto {
            fixed_params,
            has_varargs,
            max_register,
            constants,
            opcodes,
            upvalues,
            functions,
        }
    }

    pub fn fixed_params(&self) -> (r: u8)
        ensures
            r == self.spec_fixed_params(),
    {
        self.fixed_params
    }

    pub fn has_varargs(&self) -> (r: bool)
        ensures
            r == self.spec_has_varargs(),
    {
        self.has_varargs
    }

    /// The largest register used. Whatever way the prototype was built, it
    /// is at least one and no smaller than the fixed parameter count.
    pub fn max_register(&self) -> (r: u8)
        ensures
            r == self.spec_max_register(),
            r >= 1,
            self.spec_fixed_params() <= r,
    {
        proof {
            use_type_invariant(self);
        }
        self.max_register
    }

    pub fn constants(&self) -> (r: &Vec<V>)
        ensures
            r@ == self.spec_constants(),
    {
        &self.constants
    }

    pub fn opcodes(&self) -> (r: &Vec<Op>)
        ensures
            r@ == self.spec_opcodes(),
    {
        &self.opcodes
    }

    pub fn upvalues(&self) -> (r: &Vec<UpValDesc>)
        ensures
            r@ == self.spec_upvalues(),
    {
        &self.upvalues
    }

    pub fn functions(&self) -> (r: &Vec<FunctionProto<V, Op>>)
        ensures
            r@ == self.spec_functions(),
    {
        &self.functions
    }
}

} // verus!
