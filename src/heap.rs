use vstd::prelude::*;
use crate::proto::{FunctionProto, UpValDesc};

verus! {

/// Handle of a prototype allocated in a [`Heap`].
#[derive(Debug, Clone, Copy, PartialEq, Eq, Structural, Hash)]
pub struct ProtoRef(usize);

/// Handle of an upvalue cell allocated in a [`Heap`]. Two handles are equal
/// exactly when they name the same cell.
#[derive(Debug, Clone, Copy, PartialEq, Eq, Structural, Hash)]
pub struct UpValRef(usize);

/// A closure: a handle to its allocation. Equality and hashing look at the
/// allocation alone, never at the prototype or the captured cells.
#[derive(Debug, Clone, Copy, PartialEq, Eq, Structural, Hash)]
pub struct Closure(usize);

/// Storage of one captured variable.
#[derive(Debug, Clone, Copy)]
pub enum UpValue<V> {
    /// Aliases the live stack slot at this absolute index.
    Open(usize),
    /// Owns its value; no stack slot is involved any more.
    Closed(V),
}

/// What a closure allocation holds: its prototype and its captured cells,
/// one per upvalue descriptor of the prototype, in the same order.
pub struct ClosureState {
    pub proto: ProtoRef,
    pub upvalues: Vec<UpValRef>,
}

impl ProtoRef {
    /// Position of the prototype in its heap.
    pub closed spec fn spec_index(self) -> nat {
        self.0 as nat
    }

    pub fn index(&self) -> (r: usize)
        ensures
            r == self.spec_index(),
    {
        self.0
    }
}

impl UpValRef {
    /// Position of the cell in its heap.
    pub closed spec fn spec_index(self) -> nat {
        self.0 as nat
    }

    pub fn index(&self) -> (r: usize)
        ensures
            r == self.spec_index(),
    {
        self.0
    }
}

impl Closure {
    /// The allocation this closure is.
    pub closed spec fn spec_id(self) -> nat {
        self.0 as nat
    }

    pub fn id(&self) -> (r: usize)
        ensures
            r == self.spec_id(),
    {
        self.0
    }
}

/// The memory that closures live in: prototypes, closures and upvalue cells
/// are allocations addressed by handles, and the value stack holds the
/// registers of every live frame, frame after frame.
pub struct Heap<V, Op> {
    protos: Vec<FunctionProto<V, Op>>,
    closures: Vec<ClosureState>,
    cells: Vec<UpValue<V>>,
    stack: Vec<V>,
}

/// The value an upvalue cell stands for: the aliased slot while open, its
/// own value once closed.
pub open spec fn cell_value<V>(cell: UpValue<V>, stack: Seq<V>) -> V {
    match cell {
        UpValue::Open(s) => stack[s as int],
        UpValue::Closed(v) => v,
    }
}

/// From `before` to `after` no cell was freed and no closed cell reopened.
pub open spec fn closed_cells_kept<V>(before: Seq<UpValue<V>>, after: Seq<UpValue<V>>) -> bool {
    &&& before.len() <= after.len()
    &&& forall|k: int|
        0 <= k < before.len() && (#[trigger] before[k]) is Closed ==> after[k] is Closed
}

impl<V: Copy, Op> Heap<V, Op> {
    /// The allocated prototypes, by handle index.
    pub closed spec fn spec_protos(&self) -> Seq<FunctionProto<V, Op>> {
        self.protos@
    }

    /// The allocated upvalue cells, by handle index.
    pub closed spec fn spec_cells(&self) -> Seq<UpValue<V>> {
        self.cells@
    }

    /// The live stack slots, bottom first.
    pub closed spec fn spec_stack(&self) -> Seq<V> {
        self.stack@
    }

    /// Number of closures allocated so far.
    pub closed spec fn spec_closure_count(&self) -> nat {
        self.closures@.len()
    }

    /// The prototype closure `c` was made from.
    pub closed spec fn spec_closure_proto(&self, c: Closure) -> ProtoRef {
        self.closures@[c.0 as int].proto
    }

    /// The cells closure `c` holds, in descriptor order.
    pub closed spec fn spec_closure_upvalues(&self, c: Closure) -> Seq<UpValRef> {
        self.closures@[c.0 as int].upvalues@
    }

    pub open spec fn has_proto(&self, p: ProtoRef) -> bool {
        p.spec_index() < self.spec_protos().len()
    }

    pub open spec fn has_closure(&self, c: Closure) -> bool {
        c.spec_id() < self.spec_closure_count()
    }

    pub open spec fn has_cell(&self, u: UpValRef) -> bool {
        u.spec_index() < self.spec_cells().len()
    }

    pub open spec fn cell(&self, u: UpValRef) -> UpValue<V> {
        self.spec_cells()[u.spec_index() as int]
    }

    pub open spec fn proto_upvalues(&self, p: ProtoRef) -> Seq<UpValDesc> {
        self.spec_protos()[p.spec_index() as int].spec_upvalues()
    }

    /// The value read or written through cell `u`.
    pub open spec fn upvalue_value(&self, u: UpValRef) -> V {
        cell_value(self.cell(u), self.spec_stack())
    }

    /// The heap's invariant: every handle a closure holds is allocated, a
    /// closure holds one cell per descriptor of its prototype, an open cell
    /// aliases a live slot, and no two cells are open on the same slot.
    pub closed spec fn wf(&self) -> bool {
        &&& forall|c: int|
            0 <= c < self.closures@.len() ==> {
                let st = #[trigger] self.closures@[c];
                &&& st.proto.0 < self.protos@.len()
                &&& st.upvalues@.len() == self.protos@[st.proto.0 as int].spec_upvalues().len()
                &&& forall|j: int|
                    0 <= j < st.upvalues@.len() ==> (#[trigger] st.upvalues@[j]).0
                        < self.cells@.len()
            }
        &&& forall|k: int|
            0 <= k < self.cells@.len() && (#[trigger] self.cells@[k]) is Open ==> self.cells@[k]->Open_0
                < self.stack@.len()
        &&& forall|a: int, b: int|
            0 <= a < self.cells@.len() && 0 <= b < self.cells@.len() && (#[trigger] self.cells@[a]) is Open
                && (#[trigger] self.cells@[b]) is Open && self.cells@[a]->Open_0
                == self.cells@[b]->Open_0 ==> a == b
    }

    /// Heap and stack are unchanged but for the closures allocated.
    pub open spec fn only_closures_added(&self, before: &Self) -> bool {
        &&& self.spec_protos() == before.spec_protos()
        &&& self.spec_stack() == before.spec_stack()
        &&& self.spec_closure_count() >= before.spec_closure_count()
        &&& forall|c: Closure|
            #![trigger self.spec_closure_upvalues(c)]
            #![trigger self.spec_closure_proto(c)]
            before.has_closure(c) ==> self.spec_closure_proto(c) == before.spec_closure_proto(c)
                && self.spec_closure_upvalues(c) == before.spec_closure_upvalues(c)
    }

    /// Allocates a prototype.
    pub fn alloc_proto(&mut self, proto: FunctionProto<V, Op>) -> (r: ProtoRef)
        requires
            old(self).wf(),
        ensures
            final(self).wf(),
            r.spec_index() == old(self).spec_protos().len(),
            final(self).spec_protos() == old(self).spec_protos().push(proto),
            final(self).spec_cells() == old(self).spec_cells(),
            final(self).spec_stack() == old(self).spec_stack(),
            final(self).spec_closure_count() == old(self).spec_closure_count(),
            forall|c: Closure|
                #![trigger final(self).spec_closure_upvalues(c)]
                #![trigger final(self).spec_closure_proto(c)]
                old(self).has_closure(c) ==> final(self).spec_closure_proto(c)
                    == old(self).spec_closure_proto(c) && final(self).spec_closure_upvalues(c)
                    == old(self).spec_closure_upvalues(c),
            closed_cells_kept(old(self).spec_cells(), final(self).spec_cells()),
    {
        let r = ProtoRef(self.protos.len());
        self.protos.push(proto);
        assert forall|c: int| 0 <= c < self.closures@.len() implies
            #[trigger] self.protos@[self.closures@[c].proto.0 as int] == old(self).protos@[
            self.closures@[c].proto.0 as int] by {}
        r
    }

    /// The open cell that aliases stack slot `slot`, if there is one.
    pub fn open_upvalue(&self, slot: usize) -> (r: Option<UpValRef>)
        requires
            self.wf(),
        ensures
            r matches Some(u) ==> self.has_cell(u) && self.cell(u) == UpValue::<V>::Open(slot),
            r is None ==> forall|k: int|
                0 <= k < self.spec_cells().len() ==> #[trigger] self.spec_cells()[k]
                    != UpValue::<V>::Open(slot),
    {
        let mut k: usize = 0;
        while k < self.cells.len()
            invariant
                k <= self.cells@.len(),
                forall|i: int| 0 <= i < k ==> #[trigger] self.cells@[i] != UpValue::<V>::Open(slot),
            decreases self.cells@.len() - k,
        {
            match self.cells[k] {
                UpValue::Open(s) => {
                    if s == slot {
                        return Some(UpValRef(k));
                    }
                },
                UpValue::Closed(_) => {},
            }
            k = k + 1;
        }
        None
    }

    /// The cell aliasing `slot`: the one already open on it, else a new one.
    fn capture_slot(&mut self, slot: usize) -> (r: UpValRef)
        requires
            old(self).wf(),
            slot < old(self).spec_stack().len(),
        ensures
            final(self).wf(),
            final(self).only_closures_added(old(self)),
            final(self).spec_closure_count() == old(self).spec_closure_count(),
            final(self).has_cell(r),
            final(self).cell(r) == UpValue::<V>::Open(slot),
            forall|w: UpValRef|
                old(self).has_cell(w) && #[trigger] old(self).cell(w) == UpValue::<V>::Open(slot)
                    ==> r == w,
            old(self).spec_cells().len() <= final(self).spec_cells().len(),
            final(self).spec_cells().subrange(0, old(self).spec_cells().len() as int)
                == old(self).spec_cells(),
            forall|k: int|
                old(self).spec_cells().len() <= k < final(self).spec_cells().len()
                    ==> #[trigger] final(self).spec_cells()[k] is Open,
    {
        match self.open_upvalue(slot) {
            Some(u) => {
                assert(self.cells@.subrange(0, self.cells@.len() as int) =~= self.cells@);
                u
            },
            None => {
                let r = UpValRef(self.cells.len());
                self.cells.push(UpValue::Open(slot));
                assert(self.cells@.subrange(0, old(self).cells@.len() as int) =~= old(self).cells@);
                assert forall|c: int| 0 <= c < self.closures@.len() implies {
                    let st = #[trigger] self.closures@[c];
                    forall|j: int|
                        0 <= j < st.upvalues@.len() ==> (#[trigger] st.upvalues@[j]).0
                            < self.cells@.len()
                } by {
                    assert(self.closures@[c] == old(self).closures@[c]);
                }
                assert forall|a: int, b: int|
                    0 <= a < self.cells@.len() && 0 <= b < self.cells@.len()
                        && (#[trigger] self.cells@[a]) is Open && (#[trigger] self.cells@[b]) is Open
                        && self.cells@[a]->Open_0 == self.cells@[b]->Open_0 implies a == b by {
                    if a < old(self).cells@.len() && b < old(self).cells@.len() {
                        assert(old(self).cells@[a] == self.cells@[a]);
                        assert(old(self).cells@[b] == self.cells@[b]);
                    } else if a < old(self).cells@.len() {
                        assert(old(self).cells@[a] == self.cells@[a]);
                    } else if b < old(self).cells@.len() {
                        assert(old(self).cells@[b] == self.cells@[b]);
                    }
                }
                r
            },
        }
    }

    /// Every descriptor can be resolved: a captured register lies in the
    /// frame starting at stack index `base`, and an outer upvalue exists in
    /// the running closure `current`.
    pub open spec fn resolvable(&self, descs: Seq<UpValDesc>, base: usize, current: Option<Closure>) -> bool {
        forall|i: int|
            0 <= i < descs.len() ==> match #[trigger] descs[i] {
                UpValDesc::ParentLocal(r) => base + r < self.spec_stack().len(),
                UpValDesc::Outer(j) => current matches Some(c) && self.has_closure(c) && j
                    < self.spec_closure_upvalues(c).len(),
            }
    }

    /// Cell `u` of this heap is what descriptor `d` resolves to, against the
    /// frame at `base` and the running closure `current` of heap `before`:
    /// the cell open on the captured slot (the one `before` had, if any), or
    /// the very cell the running closure holds.
    pub open spec fn resolves_to(
        &self,
        before: &Self,
        d: UpValDesc,
        base: usize,
        current: Option<Closure>,
        u: UpValRef,
    ) -> bool {
        match d {
            UpValDesc::ParentLocal(r) => {
                &&& self.cell(u) == UpValue::<V>::Open((base + r) as usize)
                &&& forall|w: UpValRef|
                    before.has_cell(w) && #[trigger] before.cell(w) == UpValue::<V>::Open(
                        (base + r) as usize,
                    ) ==> u == w
            },
            UpValDesc::Outer(j) => u == before.spec_closure_upvalues(current->Some_0)[j as int],
        }
    }

    /// Creates a closure of prototype `proto`, resolving its upvalue
    /// descriptors in order against the frame whose registers start at stack
    /// index `base` and against the running closure `current`. A register
    /// already captured by an open cell is shared through that cell; no
    /// existing cell changes.
    pub fn make_closure(&mut self, proto: ProtoRef, base: usize, current: Option<Closure>) -> (r: Closure)
        requires
            old(self).wf(),
            old(self).has_proto(proto),
            old(self).resolvable(old(self).proto_upvalues(proto), base, current),
        ensures
            final(self).wf(),
            final(self).only_closures_added(old(self)),
            final(self).spec_closure_count() == old(self).spec_closure_count() + 1,
            r.spec_id() == old(self).spec_closure_count(),
            final(self).spec_closure_proto(r) == proto,
            final(self).spec_closure_upvalues(r).len() == old(self).proto_upvalues(proto).len(),
            forall|i: int|
                0 <= i < final(self).spec_closure_upvalues(r).len() ==> final(self).has_cell(
                    #[trigger] final(self).spec_closure_upvalues(r)[i],
                ) && final(self).resolves_to(
                    old(self),
                    old(self).proto_upvalues(proto)[i],
                    base,
                    current,
                    final(self).spec_closure_upvalues(r)[i],
                ),
            old(self).spec_cells().len() <= final(self).spec_cells().len(),
            forall|k: int|
                0 <= k < old(self).spec_cells().len() ==> #[trigger] final(self).spec_cells()[k]
                    == old(self).spec_cells()[k],
            forall|k: int|
                old(self).spec_cells().len() <= k < final(self).spec_cells().len()
                    ==> #[trigger] final(self).spec_cells()[k] is Open,
            closed_cells_kept(old(self).spec_cells(), final(self).spec_cells()),
    {
        let ghost descs = old(self).proto_upvalues(proto);
        let n = self.protos[proto.0].upvalues().len();
        let mut ups: Vec<UpValRef> = Vec::new();
        let mut i: usize = 0;
        while i < n
            invariant
                self.wf(),
                self.only_closures_added(old(self)),
                self.spec_closure_count() == old(self).spec_closure_count(),
                proto.0 < self.protos@.len(),
                descs == self.proto_upvalues(proto),
                n == descs.len(),
                old(self).resolvable(descs, base, current),
                i <= n,
                ups@.len() == i,
                forall|k: int|
                    0 <= k < i ==> self.has_cell(#[trigger] ups@[k]) && self.resolves_to(
                        old(self),
                        descs[k],
                        base,
                        current,
                        ups@[k],
                    ),
                old(self).spec_cells().len() <= self.spec_cells().len(),
                self.spec_cells().subrange(0, old(self).spec_cells().len() as int)
                    == old(self).spec_cells(),
                forall|k: int|
                    old(self).spec_cells().len() <= k < self.spec_cells().len()
                        ==> #[trigger] self.spec_cells()[k] is Open,
            decreases n - i,
        {
            let d = self.protos[proto.0].upvalues()[i];
            let ghost mid = *self;
            assert(descs[i as int] == d);
            let u = match d {
                UpValDesc::ParentLocal(reg) => {
                    let live = self.stack.len();
                    assert(base + reg < live);
                    self.capture_slot(base + reg as usize)
                },
                UpValDesc::Outer(j) => {
                    let c = current.unwrap();
                    assert(self.spec_closure_upvalues(c) == old(self).spec_closure_upvalues(c));
                    self.closures[c.0].upvalues[j as usize]
                },
            };
            proof {
                assert(descs[i as int] == d);
                assert forall|k: int|
                    0 <= k < old(self).spec_cells().len() implies #[trigger] mid.spec_cells()[k]
                    == old(self).spec_cells()[k] by {
                    assert(mid.cells@[k] == mid.cells@.subrange(0, old(self).cells@.len() as int)[k]);
                }
                assert forall|k: int| 0 <= k < i implies self.has_cell(#[trigger] ups@[k])
                    && self.resolves_to(old(self), descs[k], base, current, ups@[k]) by {
                    assert(mid.cells@[ups@[k].0 as int] == self.cells@.subrange(
                        0,
                        mid.cells@.len() as int,
                    )[ups@[k].0 as int]);
                }
                assert forall|k: int|
                    0 <= k < old(self).spec_cells().len() implies #[trigger] self.spec_cells()[k]
                    == old(self).spec_cells()[k] by {
                    assert(mid.cells@[k] == self.cells@.subrange(0, mid.cells@.len() as int)[k]);
                    assert(mid.cells@[k] == mid.cells@.subrange(0, old(self).cells@.len() as int)[k]);
                }
                assert(self.spec_cells().subrange(0, old(self).spec_cells().len() as int)
                    =~= old(self).spec_cells());
                assert forall|k: int|
                    old(self).spec_cells().len() <= k < self.spec_cells().len()
                        implies #[trigger] self.spec_cells()[k] is Open by {
                    if k < mid.cells@.len() {
                        assert(mid.cells@[k] == self.cells@.subrange(0, mid.cells@.len() as int)[k]);
                    }
                }
            }
            ups.push(u);
            i = i + 1;
        }
        let r = Closure(self.closures.len());
        let ghost pre = *self;
        self.closures.push(ClosureState { proto, upvalues: ups });
        proof {
            assert(self.closures@[r.0 as int].upvalues@ == ups@);
            assert forall|c: int| 0 <= c < pre.closures@.len() implies #[trigger] self.closures@[c]
                == pre.closures@[c] by {}
            assert forall|c: Closure| #[trigger] old(self).has_closure(c) implies self.spec_closure_proto(c)
                == old(self).spec_closure_proto(c) && self.spec_closure_upvalues(c)
                == old(self).spec_closure_upvalues(c) by {
                assert(self.closures@[c.0 as int] == pre.closures@[c.0 as int]);
                assert(pre.spec_closure_upvalues(c) == old(self).spec_closure_upvalues(c));
                assert(pre.spec_closure_proto(c) == old(self).spec_closure_proto(c));
            }
            assert forall|k: int|
                0 <= k < old(self).spec_cells().len() && (#[trigger] old(self).spec_cells()[k]) is Closed
                    implies self.spec_cells()[k] is Closed by {
                assert(self.spec_cells()[k] == self.spec_cells().subrange(
                    0,
                    old(self).spec_cells().len() as int,
                )[k]);
            }
        }
        r
    }

    /// What `cell` becomes when the frame starting at stack index `base` is
    /// torn down over `stack`: open on a slot of that frame, it is closed
    /// over the slot's value; otherwise it is left as it was.
    pub open spec fn closed_at(cell: UpValue<V>, base: usize, stack: Seq<V>) -> UpValue<V> {
        match cell {
            UpValue::Open(s) => if s >= base {
                UpValue::Closed(stack[s as int])
            } else {
                cell
            },
            UpValue::Closed(_) => cell,
        }
    }

    /// Tears down the frame whose registers start at stack index `base`:
    /// every cell still open on one of its slots is closed over the slot's
    /// current value, then the slots are dropped from the stack.
    pub fn close_frame(&mut self, base: usize)
        requires
            old(self).wf(),
            base <= old(self).spec_stack().len(),
        ensures
            final(self).wf(),
            final(self).spec_stack() == old(self).spec_stack().subrange(0, base as int),
            final(self).spec_protos() == old(self).spec_protos(),
            final(self).spec_closure_count() == old(self).spec_closure_count(),
            forall|c: Closure|
                #![trigger final(self).spec_closure_upvalues(c)]
                #![trigger final(self).spec_closure_proto(c)]
                old(self).has_closure(c) ==> final(self).spec_closure_proto(c)
                    == old(self).spec_closure_proto(c) && final(self).spec_closure_upvalues(c)
                    == old(self).spec_closure_upvalues(c),
            final(self).spec_cells().len() == old(self).spec_cells().len(),
            forall|k: int|
                0 <= k < old(self).spec_cells().len() ==> #[trigger] final(self).spec_cells()[k]
                    == Self::closed_at(old(self).spec_cells()[k], base, old(self).spec_stack()),
            closed_cells_kept(old(self).spec_cells(), final(self).spec_cells()),
    {
        let ghost stack0 = self.stack@;
        let mut k: usize = 0;
        while k < self.cells.len()
            invariant
                self.stack@ == stack0,
                self.protos@ == old(self).protos@,
                self.closures@ == old(self).closures@,
                self.cells@.len() == old(self).cells@.len(),
                old(self).wf(),
                stack0 == old(self).stack@,
                base <= stack0.len(),
                k <= self.cells@.len(),
                forall|i: int|
                    0 <= i < k ==> #[trigger] self.cells@[i] == Self::closed_at(
                        old(self).cells@[i],
                        base,
                        stack0,
                    ),
                forall|i: int| k <= i < self.cells@.len() ==> #[trigger] self.cells@[i] == old(self).cells@[i],
            decreases self.cells@.len() - k,
        {
            match self.cells[k] {
                UpValue::Open(s) => {
                    if s >= base {
                        let v = self.stack[s];
                        self.cells[k] = UpValue::Closed(v);
                    }
                },
                UpValue::Closed(_) => {},
            }
            k = k + 1;
        }
        self.stack.truncate(base);
        proof {
            assert forall|a: int|
                0 <= a < self.cells@.len() && (#[trigger] self.cells@[a]) is Open implies
                old(self).cells@[a] is Open && old(self).cells@[a] == self.cells@[a]
                && self.cells@[a]->Open_0 < base by {}
        }
    }

    /// Reads the variable that cell `u` holds: through the aliased stack slot
    /// while open, from the cell itself once closed.
    pub fn read_upvalue(&self, u: UpValRef) -> (r: V)
        requires
            self.wf(),
            self.has_cell(u),
        ensures
            r == self.upvalue_value(u),
    {
        match self.cells[u.0] {
            UpValue::Open(s) => self.stack[s],
            UpValue::Closed(v) => v,
        }
    }

    /// Writes the variable that cell `u` holds: into the aliased stack slot
    /// while open, into the cell itself once closed.
    pub fn write_upvalue(&mut self, u: UpValRef, v: V)
        requires
            old(self).wf(),
            old(self).has_cell(u),
        ensures
            final(self).wf(),
            final(self).spec_protos() == old(self).spec_protos(),
            final(self).spec_closure_count() == old(self).spec_closure_count(),
            forall|c: Closure|
                #![trigger final(self).spec_closure_upvalues(c)]
                #![trigger final(self).spec_closure_proto(c)]
                old(self).has_closure(c) ==> final(self).spec_closure_proto(c)
                    == old(self).spec_closure_proto(c) && final(self).spec_closure_upvalues(c)
                    == old(self).spec_closure_upvalues(c),
            match old(self).cell(u) {
                UpValue::Open(s) => final(self).spec_stack() == old(self).spec_stack().update(
                    s as int,
                    v,
                ) && final(self).spec_cells() == old(self).spec_cells(),
                UpValue::Closed(_) => final(self).spec_stack() == old(self).spec_stack()
                    && final(self).spec_cells() == old(self).spec_cells().update(
                    u.spec_index() as int,
                    UpValue::Closed(v),
                ),
            },
            final(self).upvalue_value(u) == v,
            closed_cells_kept(old(self).spec_cells(), final(self).spec_cells()),
    {
        match self.cells[u.0] {
            UpValue::Open(s) => {
                self.stack[s] = v;
            },
            UpValue::Closed(_) => {
                self.cells[u.0] = UpValue::Closed(v);
            },
        }
    }

    /// Pushes a new slot on top of the stack.
    pub fn push_slot(&mut self, v: V)
        requires
            old(self).wf(),
        ensures
            final(self).wf(),
            final(self).spec_stack() == old(self).spec_stack().push(v),
            final(self).spec_cells() == old(self).spec_cells(),
            final(self).spec_protos() == old(self).spec_protos(),
            final(self).spec_closure_count() == old(self).spec_closure_count(),
            forall|c: Closure|
                #![trigger final(self).spec_closure_upvalues(c)]
                #![trigger final(self).spec_closure_proto(c)]
                old(self).has_closure(c) ==> final(self).spec_closure_proto(c)
                    == old(self).spec_closure_proto(c) && final(self).spec_closure_upvalues(c)
                    == old(self).spec_closure_upvalues(c),
            closed_cells_kept(old(self).spec_cells(), final(self).spec_cells()),
    {
        self.stack.push(v);
    }

    /// The value in stack slot `i`.
    pub fn get_slot(&self, i: usize) -> (r: V)
        requires
            i < self.spec_stack().len(),
        ensures
            r == self.spec_stack()[i as int],
    {
        self.stack[i]
    }

    /// Stores `v` in stack slot `i`. Cells are untouched: a cell open on the
    /// slot sees the new value, a closed one keeps its own.
    pub fn set_slot(&mut self, i: usize, v: V)
        requires
            old(self).wf(),
            i < old(self).spec_stack().len(),
        ensures
            final(self).wf(),
            final(self).spec_stack() == old(self).spec_stack().update(i as int, v),
            final(self).spec_cells() == old(self).spec_cells(),
            final(self).spec_protos() == old(self).spec_protos(),
            final(self).spec_closure_count() == old(self).spec_closure_count(),
            forall|c: Closure|
                #![trigger final(self).spec_closure_upvalues(c)]
                #![trigger final(self).spec_closure_proto(c)]
                old(self).has_closure(c) ==> final(self).spec_closure_proto(c)
                    == old(self).spec_closure_proto(c) && final(self).spec_closure_upvalues(c)
                    == old(self).spec_closure_upvalues(c),
            closed_cells_kept(old(self).spec_cells(), final(self).spec_cells()),
    {
        self.stack[i] = v;
    }

    /// Number of live stack slots.
    pub fn stack_len(&self) -> (r: usize)
        ensures
            r == self.spec_stack().len(),
    {
        self.stack.len()
    }

    /// The prototype behind handle `p`.
    pub fn proto(&self, p: ProtoRef) -> (r: &FunctionProto<V, Op>)
        requires
            self.has_proto(p),
        ensures
            *r == self.spec_protos()[p.spec_index() as int],
    {
        &self.protos[p.0]
    }

    /// The prototype closure `c` was made from.
    pub fn closure_proto(&self, c: Closure) -> (r: ProtoRef)
        requires
            self.wf(),
            self.has_closure(c),
        ensures
            r == self.spec_closure_proto(c),
            self.has_proto(r),
    {
        self.closures[c.0].proto
    }

    /// The allocation behind closure `c`.
    pub fn closure_state(&self, c: Closure) -> (r: &ClosureState)
        requires
            self.has_closure(c),
        ensures
            r.proto == self.spec_closure_proto(c),
            r.upvalues@ == self.spec_closure_upvalues(c),
    {
        &self.closures[c.0]
    }

    /// Number of cells closure `c` holds: its prototype's descriptor count.
    pub fn upvalue_count(&self, c: Closure) -> (r: usize)
        requires
            self.wf(),
            self.has_closure(c),
        ensures
            r == self.spec_closure_upvalues(c).len(),
            r == self.proto_upvalues(self.spec_closure_proto(c)).len(),
    {
        self.closures[c.0].upvalues.len()
    }

    /// The `i`-th cell closure `c` holds.
    pub fn closure_upvalue(&self, c: Closure, i: usize) -> (r: UpValRef)
        requires
            self.wf(),
            self.has_closure(c),
            i < self.spec_closure_upvalues(c).len(),
        ensures
            r == self.spec_closure_upvalues(c)[i as int],
            self.has_cell(r),
    {
        self.closures[c.0].upvalues[i]
    }

    /// The state of cell `u`: open on a slot, or closed over a value.
    pub fn upvalue(&self, u: UpValRef) -> (r: UpValue<V>)
        requires
            self.has_cell(u),
        ensures
            r == self.cell(u),
    {
        self.cells[u.0]
    }

    /// Number of closures allocated so far.
    pub fn closure_count(&self) -> (r: usize)
        ensures
            r == self.spec_closure_count(),
    {
        self.closures.len()
    }

    /// Number of upvalue cells allocated so far.
    pub fn cell_count(&self) -> (r: usize)
        ensures
            r == self.spec_cells().len(),
    {
        self.cells.len()
    }

    /// An empty heap with an empty stack.
    pub fn new() -> (r: Self)
        ensures
            r.wf(),
            r.spec_protos().len() == 0,
            r.spec_closure_count() == 0,
            r.spec_cells().len() == 0,
            r.spec_stack().len() == 0,
    {
        Heap { protos: Vec::new(), closures: Vec::new(), cells: Vec::new(), stack: Vec::new() }
    }
}

impl Closure {
    /// Allocates a closure of a prototype that captures nothing: the
    /// prototype is allocated with it and the closure holds no cell.
    pub fn new<V: Copy, Op>(heap: &mut Heap<V, Op>, proto: FunctionProto<V, Op>) -> (r: Closure)
        requires
            old(heap).wf(),
            proto.spec_upvalues().len() == 0,
        ensures
            final(heap).wf(),
            final(heap).spec_protos() == old(heap).spec_protos().push(proto),
            final(heap).spec_cells() == old(heap).spec_cells(),
            final(heap).spec_stack() == old(heap).spec_stack(),
            final(heap).spec_closure_count() == old(heap).spec_closure_count() + 1,
            r.spec_id() == old(heap).spec_closure_count(),
            final(heap).spec_closure_proto(r).spec_index() == old(heap).spec_protos().len(),
            final(heap).spec_closure_upvalues(r).len() == 0,
            forall|c: Closure|
                #![trigger final(heap).spec_closure_upvalues(c)]
                #![trigger final(heap).spec_closure_proto(c)]
                old(heap).has_closure(c) ==> final(heap).spec_closure_proto(c)
                    == old(heap).spec_closure_proto(c) && final(heap).spec_closure_upvalues(c)
                    == old(heap).spec_closure_upvalues(c),
            closed_cells_kept(old(heap).spec_cells(), final(heap).spec_cells()),
    {
        let p = heap.alloc_proto(proto);
        let r = Closure(heap.closures.len());
        let ghost pre = *heap;
        heap.closures.push(ClosureState { proto: p, upvalues: Vec::new() });
        proof {
            assert forall|c: int| 0 <= c < pre.closures@.len() implies #[trigger] heap.closures@[c]
                == pre.closures@[c] by {}
            assert forall|c: Closure| #[trigger] old(heap).has_closure(c) implies heap.spec_closure_proto(c)
                == old(heap).spec_closure_proto(c) && heap.spec_closure_upvalues(c)
                == old(heap).spec_closure_upvalues(c) by {
                assert(heap.closures@[c.0 as int] == pre.closures@[c.0 as int]);
                assert(pre.spec_closure_upvalues(c) == old(heap).spec_closure_upvalues(c));
            }
        }
        r
    }
}

/// Closures have allocation identity: a closure allocated after heap
/// `before` differs from every closure `before` already holds, whatever
/// prototype and cells the two share.
pub proof fn lemma_separate_allocations_differ<V: Copy, Op>(
    before: &Heap<V, Op>,
    earlier: Closure,
    fresh: Closure,
)
    requires
        before.has_closure(earlier),
        fresh.spec_id() == before.spec_closure_count(),
    ensures
        earlier != fresh,
{
}

/// A closure holds exactly one cell per upvalue descriptor of its
/// prototype; a prototype without descriptors gives an empty list.
pub proof fn lemma_upvalues_aligned<V: Copy, Op>(heap: &Heap<V, Op>, c: Closure)
    requires
        heap.wf(),
        heap.has_closure(c),
    ensures
        heap.has_proto(heap.spec_closure_proto(c)),
        heap.spec_closure_upvalues(c).len() == heap.proto_upvalues(heap.spec_closure_proto(c)).len(),
        heap.proto_upvalues(heap.spec_closure_proto(c)).len() == 0 ==> heap.spec_closure_upvalues(c)
            =~= Seq::<UpValRef>::empty(),
{
    assert(heap.closures@[c.0 as int] == heap.closures@[c.0 as int]);
}

/// No cell ever reopens: a cell seen closed is still closed after any run
/// of operations, each of which keeps closed cells closed.
pub proof fn lemma_closed_stays_closed<V>(
    first: Seq<UpValue<V>>,
    second: Seq<UpValue<V>>,
    third: Seq<UpValue<V>>,
)
    requires
        closed_cells_kept(first, second),
        closed_cells_kept(second, third),
    ensures
        closed_cells_kept(first, third),
{
    assert forall|k: int| 0 <= k < first.len() && (#[trigger] first[k]) is Closed implies third[k] is Closed by {
        assert(second[k] is Closed);
    }
}

/// A cell closed by tearing down the frame at `base` keeps the value its
/// slot held at that moment: as long as nothing is written through the
/// cell itself, every later read returns that value, whatever later
/// happens to the stack.
pub proof fn lemma_closing_fidelity<V: Copy, Op>(
    before: &Heap<V, Op>,
    closed: &Heap<V, Op>,
    later: &Heap<V, Op>,
    u: UpValRef,
    base: usize,
)
    requires
        before.wf(),
        before.has_cell(u),
        before.cell(u) matches UpValue::Open(s) && s >= base,
        closed.has_cell(u),
        closed.cell(u) == Heap::<V, Op>::closed_at(before.cell(u), base, before.spec_stack()),
        later.has_cell(u),
        later.cell(u) == closed.cell(u),
    ensures
        later.cell(u) is Closed,
        later.upvalue_value(u) == before.upvalue_value(u),
{
}

/// Captures of one slot share one cell: two cells that closures hold and
/// that are open on the same stack slot are the same cell, so a write
/// through one is read through the other.
pub proof fn lemma_shared_capture<V: Copy, Op>(
    heap: &Heap<V, Op>,
    c1: Closure,
    i1: int,
    c2: Closure,
    i2: int,
)
    requires
        heap.wf(),
        heap.has_closure(c1),
        heap.has_closure(c2),
        0 <= i1 < heap.spec_closure_upvalues(c1).len(),
        0 <= i2 < heap.spec_closure_upvalues(c2).len(),
        heap.cell(heap.spec_closure_upvalues(c1)[i1]) is Open,
        heap.cell(heap.spec_closure_upvalues(c1)[i1]) == heap.cell(heap.spec_closure_upvalues(c2)[i2]),
    ensures
        heap.spec_closure_upvalues(c1)[i1] == heap.spec_closure_upvalues(c2)[i2],
{
    let st1 = heap.closures@[c1.0 as int];
    let st2 = heap.closures@[c2.0 as int];
    let a = st1.upvalues@[i1];
    let b = st2.upvalues@[i2];
    assert(a.0 < heap.cells@.len());
    assert(b.0 < heap.cells@.len());
    assert(heap.cells@[a.0 as int] is Open);
    assert(heap.cells@[b.0 as int] is Open);
}

} // verus!
