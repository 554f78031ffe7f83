//! The memory capability set and an in-memory backing store.
//!
//! A [`Memory`] owns the three segments of one machine instance: the code
//! segment (immutable during execution), the stack (push/pop at the top
//! and frame-relative addressing from a base pointer), and a sparse heap
//! of independently tagged value cells. Every heap write stores the tag
//! with the value and every heap read names the tag it expects, so a cell
//! is never silently reinterpreted. [`VmMem`] backs the capability set
//! with vectors and a hash map.

use vstd::prelude::*;

use std::collections::HashMap;

use crate::err::{CpuErr, ISAErr};
use crate::{Inst, RegType};

verus! {

broadcast use vstd::std_specs::hash::group_hash_axioms;

/// Word read of a heap cell: absent cells fault with `InvalidHeapType`,
/// float-tagged cells fault with `TypeMismatch`.
pub open spec fn spec_heap_read_u(h: Map<usize, RegType>, addr: usize) -> Result<usize, ISAErr> {
    if !h.dom().contains(addr) {
        Err(ISAErr::InvalidHeapType)
    } else {
        match h[addr] {
            RegType::Usize(w) => Ok(w),
            RegType::F64(_) => Err(ISAErr::TypeMismatch),
        }
    }
}

/// Float read of a heap cell: absent cells fault with `InvalidHeapType`,
/// word-tagged cells fault with `TypeMismatch`.
pub open spec fn spec_heap_read_f(h: Map<usize, RegType>, addr: usize) -> Result<u64, ISAErr> {
    if !h.dom().contains(addr) {
        Err(ISAErr::InvalidHeapType)
    } else {
        match h[addr] {
            RegType::Usize(_) => Err(ISAErr::TypeMismatch),
            RegType::F64(v) => Ok(v),
        }
    }
}

/// Frame-relative stack read at `bp + offset`, faulting outside the stack.
pub open spec fn spec_stack_read(s: Seq<RegType>, bp: usize, offset: usize) -> Result<
    RegType,
    ISAErr,
> {
    if bp + offset < s.len() {
        Ok(s[bp + offset])
    } else {
        Err(ISAErr::InvalidStackAddr)
    }
}

/// The memory capability set: segment clears, typed heap reads, untyped
/// heap writes, frame-relative stack access, top-of-stack push/pop,
/// frame drop, code fetch, and bulk loading of code and stack.
///
/// This is the sole storage interface the execution contract consumes;
/// any backend satisfying these contracts can stand behind it.
pub trait Memory: Sized {
    /// The code segment as a sequence of instructions.
    spec fn code_view(&self) -> Seq<Inst>;

    /// The stack as a sequence of tagged values, bottom first.
    spec fn stack_view(&self) -> Seq<RegType>;

    /// The heap as a partial map from addresses to tagged cells.
    spec fn heap_view(&self) -> Map<usize, RegType>;

    /// Fetches the instruction at a code address; a miss is a fetch
    /// fault, distinct from every execution fault.
    fn fetch_code(&self, addr: usize) -> (r: Result<Inst, CpuErr>)
        ensures
            addr < self.code_view().len() ==> r == Ok::<Inst, CpuErr>(
                self.code_view()[addr as int],
            ),
            addr >= self.code_view().len() ==> r == Err::<Inst, CpuErr>(CpuErr::InvalidCodeAddr),
    ;

    /// Empties the code segment (program reload, never mid-execution).
    fn clear_code(&mut self)
        ensures
            final(self).code_view() == Seq::<Inst>::empty(),
            final(self).stack_view() == old(self).stack_view(),
            final(self).heap_view() == old(self).heap_view(),
    ;

    /// Empties the stack.
    fn clear_stack(&mut self)
        ensures
            final(self).stack_view() == Seq::<RegType>::empty(),
            final(self).code_view() == old(self).code_view(),
            final(self).heap_view() == old(self).heap_view(),
    ;

    /// Empties the heap.
    fn clear_heap(&mut self)
        ensures
            final(self).heap_view() == Map::<usize, RegType>::empty(),
            final(self).code_view() == old(self).code_view(),
            final(self).stack_view() == old(self).stack_view(),
    ;

    /// Appends instructions to the code segment (program loading).
    fn append_code(&mut self, code: &[Inst])
        ensures
            final(self).code_view() == old(self).code_view() + code@,
            final(self).stack_view() == old(self).stack_view(),
            final(self).heap_view() == old(self).heap_view(),
    ;

    /// Appends values to the stack (argument seeding).
    fn append_stack(&mut self, vals: &[RegType])
        ensures
            final(self).stack_view() == old(self).stack_view() + vals@,
            final(self).code_view() == old(self).code_view(),
            final(self).heap_view() == old(self).heap_view(),
    ;

    /// Reads a heap cell expecting the word tag.
    fn get_heap_u(&self, addr: usize) -> (r: Result<usize, ISAErr>)
        ensures
            r == spec_heap_read_u(self.heap_view(), addr),
    ;

    /// Reads a heap cell expecting the float tag.
    fn get_heap_f(&self, addr: usize) -> (r: Result<u64, ISAErr>)
        ensures
            r == spec_heap_read_f(self.heap_view(), addr),
    ;

    /// Writes a heap cell; the value carries its own tag.
    fn set_heap(&mut self, addr: usize, v: RegType)
        ensures
            final(self).heap_view() == old(self).heap_view().insert(addr, v),
            final(self).code_view() == old(self).code_view(),
            final(self).stack_view() == old(self).stack_view(),
    ;

    /// Reads the stack slot at `bp + offset`.
    fn get_stack(&self, bp: usize, offset: usize) -> (r: Result<RegType, ISAErr>)
        ensures
            r == spec_stack_read(self.stack_view(), bp, offset),
    ;

    /// Writes the stack slot at `bp + offset`, faulting outside the
    /// stack and leaving every segment unchanged on a fault.
    fn set_stack(&mut self, bp: usize, offset: usize, v: RegType) -> (r: Result<(), ISAErr>)
        ensures
            bp + offset < old(self).stack_view().len() ==> r == Ok::<(), ISAErr>(())
                && final(self).stack_view() == old(self).stack_view().update(
                bp as int + offset as int,
                v,
            ),
            bp + offset >= old(self).stack_view().len() ==> r == Err::<(), ISAErr>(
                ISAErr::InvalidStackAddr,
            ) && final(self).stack_view() == old(self).stack_view(),
            final(self).code_view() == old(self).code_view(),
            final(self).heap_view() == old(self).heap_view(),
    ;

    /// Pushes a value on top of the stack.
    fn push_stack(&mut self, v: RegType)
        ensures
            final(self).stack_view() == old(self).stack_view().push(v),
            final(self).code_view() == old(self).code_view(),
            final(self).heap_view() == old(self).heap_view(),
    ;

    /// Pops the top of the stack; an empty stack underflows and is left
    /// unchanged.
    fn pop_stack(&mut self) -> (r: Result<RegType, ISAErr>)
        ensures
            old(self).stack_view().len() == 0 ==> r == Err::<RegType, ISAErr>(
                ISAErr::StackUnderflow,
            ) && final(self).stack_view() == old(self).stack_view(),
            old(self).stack_view().len() > 0 ==> r == Ok::<RegType, ISAErr>(
                old(self).stack_view().last(),
            ) && final(self).stack_view() == old(self).stack_view().drop_last(),
            final(self).code_view() == old(self).code_view(),
            final(self).heap_view() == old(self).heap_view(),
    ;

    /// Address one past the top of the stack: the next push lands here.
    fn stack_top_addr(&self) -> (r: usize)
        ensures
            r == self.stack_view().len(),
    ;

    /// Truncates the stack to a base pointer, discarding that frame:
    /// exactly the slots at and above `bp` go, the slots below stay.
    fn drop_bp(&mut self, bp: usize)
        ensures
            bp <= old(self).stack_view().len() ==> final(self).stack_view() == old(
                self,
            ).stack_view().take(bp as int),
            bp > old(self).stack_view().len() ==> final(self).stack_view() == old(
                self,
            ).stack_view(),
            final(self).code_view() == old(self).code_view(),
            final(self).heap_view() == old(self).heap_view(),
    ;

    /// Device-style read of a word at an address. What the address means
    /// is this backend's choice; the code and stack segments stay put.
    fn io_read_u(&mut self, addr: usize) -> (r: Result<usize, ISAErr>)
        ensures
            final(self).code_view() == old(self).code_view(),
            final(self).stack_view() == old(self).stack_view(),
    ;

    /// Device-style read of a float bit pattern at an address.
    fn io_read_f(&mut self, addr: usize) -> (r: Result<u64, ISAErr>)
        ensures
            final(self).code_view() == old(self).code_view(),
            final(self).stack_view() == old(self).stack_view(),
    ;

    /// Device-style write of a tagged value to an address.
    fn io_write(&mut self, addr: usize, v: RegType) -> (r: Result<(), ISAErr>)
        ensures
            final(self).code_view() == old(self).code_view(),
            final(self).stack_view() == old(self).stack_view(),
    ;
}

/// In-memory backing store: vectors for code and stack, a hash map for
/// the sparse heap. Device I/O is memory-mapped onto the heap.
pub struct VmMem {
    code: Vec<Inst>,
    stack: Vec<RegType>,
    heap: HashMap<usize, RegType>,
}

impl VmMem {
    /// A machine memory with every segment empty.
    pub fn new() -> (r: VmMem)
        ensures
            r.code_view() == Seq::<Inst>::empty(),
            r.stack_view() == Seq::<RegType>::empty(),
            r.heap_view() == Map::<usize, RegType>::empty(),
    {
        VmMem { code: Vec::new(), stack: Vec::new(), heap: HashMap::new() }
    }
}

impl Memory for VmMem {
    closed spec fn code_view(&self) -> Seq<Inst> {
        self.code@
    }

    closed spec fn stack_view(&self) -> Seq<RegType> {
        self.stack@
    }

    closed spec fn heap_view(&self) -> Map<usize, RegType> {
        self.heap@
    }

    fn fetch_code(&self, addr: usize) -> (r: Result<Inst, CpuErr>) {
        if addr < self.code.len() {
            Ok(self.code[addr])
        } else {
            Err(CpuErr::InvalidCodeAddr)
        }
    }

    fn clear_code(&mut self) {
        self.code.clear();
    }

    fn clear_stack(&mut self) {
        self.stack.clear();
    }

    fn clear_heap(&mut self) {
        self.heap.clear();
    }

    fn append_code(&mut self, code: &[Inst]) {
        let mut k: usize = 0;
        while k < code.len()
            invariant
                k <= code@.len(),
                self.code@ == old(self).code@ + code@.take(k as int),
                self.stack@ == old(self).stack@,
                self.heap@ == old(self).heap@,
            decreases code@.len() - k,
        {
            self.code.push(code[k]);
            proof {
                assert(old(self).code@ + code@.take(k as int + 1) =~= (old(self).code@
                    + code@.take(k as int)).push(code@[k as int]));
            }
            k = k + 1;
        }
        proof {
            assert(code@.take(code@.len() as int) =~= code@);
        }
    }

    fn append_stack(&mut self, vals: &[RegType]) {
        let mut k: usize = 0;
        while k < vals.len()
            invariant
                k <= vals@.len(),
                self.stack@ == old(self).stack@ + vals@.take(k as int),
                self.code@ == old(self).code@,
                self.heap@ == old(self).heap@,
            decreases vals@.len() - k,
        {
            self.stack.push(vals[k]);
            proof {
                assert(old(self).stack@ + vals@.take(k as int + 1) =~= (old(self).stack@
                    + vals@.take(k as int)).push(vals@[k as int]));
            }
            k = k + 1;
        }
        proof {
            assert(vals@.take(vals@.len() as int) =~= vals@);
        }
    }

    fn get_heap_u(&self, addr: usize) -> (r: Result<usize, ISAErr>) {
        match self.heap.get(&addr) {
            None => Err(ISAErr::InvalidHeapType),
            Some(RegType::Usize(w)) => Ok(*w),
            Some(RegType::F64(_)) => Err(ISAErr::TypeMismatch),
        }
    }

    fn get_heap_f(&self, addr: usize) -> (r: Result<u64, ISAErr>) {
        match self.heap.get(&addr) {
            None => Err(ISAErr::InvalidHeapType),
            Some(RegType::Usize(_)) => Err(ISAErr::TypeMismatch),
            Some(RegType::F64(v)) => Ok(*v),
        }
    }

    fn set_heap(&mut self, addr: usize, v: RegType) {
        self.heap.insert(addr, v);
    }

    fn get_stack(&self, bp: usize, offset: usize) -> (r: Result<RegType, ISAErr>) {
        if bp < self.stack.len() && offset < self.stack.len() - bp {
            Ok(self.stack[bp + offset])
        } else {
            Err(ISAErr::InvalidStackAddr)
        }
    }

    fn set_stack(&mut self, bp: usize, offset: usize, v: RegType) -> (r: Result<(), ISAErr>) {
        if bp < self.stack.len() && offset < self.stack.len() - bp {
            self.stack.set(bp + offset, v);
            Ok(())
        } else {
            Err(ISAErr::InvalidStackAddr)
        }
    }

    fn push_stack(&mut self, v: RegType) {
        self.stack.push(v);
    }

    fn pop_stack(&mut self) -> (r: Result<RegType, ISAErr>) {
        match self.stack.pop() {
            Some(v) => Ok(v),
            None => Err(ISAErr::StackUnderflow),
        }
    }

    fn stack_top_addr(&self) -> (r: usize) {
        self.stack.len()
    }

    fn drop_bp(&mut self, bp: usize) {
        self.stack.truncate(bp);
    }

    fn io_read_u(&mut self, addr: usize) -> (r: Result<usize, ISAErr>) {
        self.get_heap_u(addr)
    }

    fn io_read_f(&mut self, addr: usize) -> (r: Result<u64, ISAErr>) {
        self.get_heap_f(addr)
    }

    fn io_write(&mut self, addr: usize, v: RegType) -> (r: Result<(), ISAErr>) {
        self.set_heap(addr, v);
        Ok(())
    }
}

/// Tag safety of the heap: a cell written with a float-tagged value and
/// then read with the word accessor faults with a type mismatch — never
/// a reinterpreted bit pattern — and the word case is symmetric.
pub proof fn lemma_heap_tag_safety(h: Map<usize, RegType>, addr: usize, bits: u64, w: usize)
    ensures
        spec_heap_read_u(h.insert(addr, RegType::F64(bits)), addr) == Err::<usize, ISAErr>(
            ISAErr::TypeMismatch,
        ),
        spec_heap_read_f(h.insert(addr, RegType::Usize(w)), addr) == Err::<u64, ISAErr>(
            ISAErr::TypeMismatch,
        ),
        spec_heap_read_u(h.insert(addr, RegType::Usize(w)), addr) == Ok::<usize, ISAErr>(w),
        spec_heap_read_f(h.insert(addr, RegType::F64(bits)), addr) == Ok::<u64, ISAErr>(bits),
{
}

/// Stack discipline: a push followed by a pop yields exactly the value
/// pushed and restores the stack, and dropping a base pointer removes
/// exactly the slots pushed at or above it while the slots below stay
/// untouched.
pub proof fn lemma_stack_discipline(s: Seq<RegType>, v: RegType, bp: usize)
    requires
        bp <= s.len(),
    ensures
        s.push(v).last() == v,
        s.push(v).drop_last() == s,
        s.take(bp as int).len() == bp,
        forall|k: int| 0 <= k < bp ==> s.take(bp as int)[k] == s[k],
{
    assert(s.push(v).drop_last() =~= s);
}

} // verus!
