//! Closures and upvalues for a register-based, garbage-collected bytecode
//! virtual machine: the prototype tree, capture descriptors, upvalue cells
//! with their open/closed lifecycle, and closures with allocation identity.

mod heap;
mod proto;

pub use heap::{
    cell_value, closed_cells_kept, lemma_closed_stays_closed, lemma_closing_fidelity,
    lemma_separate_allocations_differ, lemma_shared_capture, lemma_upvalues_aligned, Closure,
    ClosureState, Heap, ProtoRef, UpValRef, UpValue,
};
pub use proto::{FunctionProto, Register, UpValDesc, UpValIndex};
