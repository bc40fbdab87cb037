use vstd::prelude::*;

verus! {

/// The registers that are kept for a suspended thread: the stack pointer and
/// the callee-saved registers of the x86-64 System V calling convention.
#[derive(Clone, Copy, Debug, PartialEq, Eq, Structural)]
pub struct ThreadContext {
    pub rsp: u64,
    pub r15: u64,
    pub r14: u64,
    pub r13: u64,
    pub r12: u64,
    pub rbx: u64,
    pub rbp: u64,
}

impl ThreadContext {
    /// The record in which every register is zero.
    pub open spec fn zeroed() -> ThreadContext {
        ThreadContext { rsp: 0, r15: 0, r14: 0, r13: 0, r12: 0, rbx: 0, rbp: 0 }
    }

    /// This record with another stack pointer.
    pub open spec fn with_rsp(self, rsp: u64) -> ThreadContext {
        ThreadContext { rsp, ..self }
    }
}

impl Default for ThreadContext {
    fn default() -> (c: ThreadContext)
        ensures
            c == ThreadContext::zeroed(),
    {
        ThreadContext { rsp: 0, r15: 0, r14: 0, r13: 0, r12: 0, rbx: 0, rbp: 0 }
    }
}

} // verus!
