use std::collections::hash_map::DefaultHasher;
use std::hash::{Hash, Hasher};

use closures::{Closure, FunctionProto, Heap, UpValDesc, UpValue};

fn proto(max_register: u8, upvalues: Vec<UpValDesc>) -> FunctionProto<u64, u8> {
    FunctionProto::new(0, false, max_register, Vec::new(), Vec::new(), upvalues, Vec::new())
}

fn hash_of(c: &Closure) -> u64 {
    let mut h = DefaultHasher::new();
    c.hash(&mut h);
    h.finish()
}

#[test]
fn prototype_keeps_its_fields() {
    let inner = proto(1, Vec::new());
    let p: FunctionProto<u64, u8> = FunctionProto::new(
        2,
        true,
        4,
        vec![10, 20],
        vec![1, 2, 3],
        vec![UpValDesc::ParentLocal(3), UpValDesc::Outer(0)],
        vec![inner],
    );
    assert_eq!(p.fixed_params(), 2);
    assert!(p.has_varargs());
    assert_eq!(p.max_register(), 4);
    assert_eq!(p.constants(), &vec![10, 20]);
    assert_eq!(p.opcodes(), &vec![1, 2, 3]);
    assert_eq!(p.upvalues(), &vec![UpValDesc::ParentLocal(3), UpValDesc::Outer(0)]);
    assert_eq!(p.functions().len(), 1);
    assert_eq!(p.functions()[0].max_register(), 1);
}

#[test]
fn prototype_registers_bound_parameters() {
    let p: FunctionProto<u64, u8> =
        FunctionProto::new(3, false, 3, Vec::new(), Vec::new(), Vec::new(), Vec::new());
    assert!(p.max_register() >= 1);
    assert!(p.fixed_params() <= p.max_register());
}

#[test]
fn separate_closures_are_unequal() {
    let mut heap: Heap<u64, u8> = Heap::new();
    let a = Closure::new(&mut heap, proto(1, Vec::new()));
    let b = Closure::new(&mut heap, proto(1, Vec::new()));
    assert_ne!(a, b);
    assert_eq!(a, a);
    let a2 = a;
    assert_eq!(a, a2);
    assert_eq!(hash_of(&a), hash_of(&a2));
    assert_eq!(a.id(), 0);
    assert_eq!(b.id(), 1);
    assert_eq!(heap.closure_count(), 2);
}

#[test]
fn identical_captures_still_unequal() {
    let mut heap: Heap<u64, u8> = Heap::new();
    heap.push_slot(5);
    let p = heap.alloc_proto(proto(1, vec![UpValDesc::ParentLocal(0)]));
    let a = heap.make_closure(p, 0, None);
    let b = heap.make_closure(p, 0, None);
    assert_eq!(heap.closure_upvalue(a, 0), heap.closure_upvalue(b, 0));
    assert_eq!(heap.closure_proto(a), heap.closure_proto(b));
    assert_ne!(a, b);
}

#[test]
fn zero_upvalue_closure_has_empty_list() {
    let mut heap: Heap<u64, u8> = Heap::new();
    let c = Closure::new(&mut heap, proto(2, Vec::new()));
    assert_eq!(heap.upvalue_count(c), 0);
    assert!(heap.closure_state(c).upvalues.is_empty());
    assert_eq!(heap.cell_count(), 0);
    let p = heap.closure_proto(c);
    assert_eq!(heap.proto(p).max_register(), 2);
}

#[test]
fn upvalue_list_matches_descriptors() {
    let mut heap: Heap<u64, u8> = Heap::new();
    heap.push_slot(1);
    heap.push_slot(2);
    let outer = heap.alloc_proto(proto(2, vec![UpValDesc::ParentLocal(0), UpValDesc::ParentLocal(1)]));
    let running = heap.make_closure(outer, 0, None);
    let inner = heap.alloc_proto(proto(
        1,
        vec![UpValDesc::Outer(1), UpValDesc::ParentLocal(1), UpValDesc::Outer(0)],
    ));
    let c = heap.make_closure(inner, 0, Some(running));
    assert_eq!(heap.upvalue_count(running), 2);
    assert_eq!(heap.upvalue_count(c), 3);
    assert_eq!(heap.closure_upvalue(c, 0), heap.closure_upvalue(running, 1));
    assert_eq!(heap.closure_upvalue(c, 1), heap.closure_upvalue(running, 1));
    assert_eq!(heap.closure_upvalue(c, 2), heap.closure_upvalue(running, 0));
    assert_eq!(heap.cell_count(), 2);
}

#[test]
fn nested_capture_scenario() {
    let mut heap: Heap<u64, u8> = Heap::new();
    heap.push_slot(0);
    heap.push_slot(0);
    heap.push_slot(7);
    let pa = heap.alloc_proto(proto(3, vec![UpValDesc::ParentLocal(2)]));
    let pb = heap.alloc_proto(proto(1, vec![UpValDesc::Outer(0)]));
    let closure_a = heap.make_closure(pa, 0, None);
    let ua = heap.closure_upvalue(closure_a, 0);
    assert!(matches!(heap.upvalue(ua), UpValue::Open(2)));
    let closure_b = heap.make_closure(pb, 0, Some(closure_a));
    let ub = heap.closure_upvalue(closure_b, 0);
    assert_eq!(ua, ub);
    heap.close_frame(0);
    assert_eq!(heap.stack_len(), 0);
    assert!(matches!(heap.upvalue(ua), UpValue::Closed(7)));
    assert_eq!(heap.read_upvalue(ua), 7);
    assert_eq!(heap.read_upvalue(ub), 7);
}

#[test]
fn closed_cell_never_reopens() {
    let mut heap: Heap<u64, u8> = Heap::new();
    heap.push_slot(4);
    let p = heap.alloc_proto(proto(1, vec![UpValDesc::ParentLocal(0)]));
    let first = heap.make_closure(p, 0, None);
    let u = heap.closure_upvalue(first, 0);
    heap.close_frame(0);
    assert!(matches!(heap.upvalue(u), UpValue::Closed(4)));
    heap.push_slot(9);
    let second = heap.make_closure(p, 0, None);
    let v = heap.closure_upvalue(second, 0);
    assert_ne!(u, v);
    assert!(matches!(heap.upvalue(v), UpValue::Open(0)));
    assert!(matches!(heap.upvalue(u), UpValue::Closed(4)));
    heap.write_upvalue(u, 6);
    assert!(matches!(heap.upvalue(u), UpValue::Closed(6)));
    assert_eq!(heap.get_slot(0), 9);
}

#[test]
fn closed_value_ignores_later_stack_writes() {
    let mut heap: Heap<u64, u8> = Heap::new();
    heap.push_slot(1);
    heap.push_slot(2);
    let p = heap.alloc_proto(proto(2, vec![UpValDesc::ParentLocal(1)]));
    let c = heap.make_closure(p, 0, None);
    let u = heap.closure_upvalue(c, 0);
    heap.set_slot(1, 8);
    assert_eq!(heap.read_upvalue(u), 8);
    heap.close_frame(0);
    heap.push_slot(30);
    heap.push_slot(31);
    heap.set_slot(1, 99);
    assert_eq!(heap.read_upvalue(u), 8);
    assert_eq!(heap.get_slot(1), 99);
}

#[test]
fn shared_register_shares_cell() {
    let mut heap: Heap<u64, u8> = Heap::new();
    heap.push_slot(0);
    heap.push_slot(3);
    let p = heap.alloc_proto(proto(2, vec![UpValDesc::ParentLocal(1)]));
    let q = heap.alloc_proto(proto(2, vec![UpValDesc::ParentLocal(0), UpValDesc::ParentLocal(1)]));
    let a = heap.make_closure(p, 0, None);
    let b = heap.make_closure(q, 0, None);
    let ua = heap.closure_upvalue(a, 0);
    let ub = heap.closure_upvalue(b, 1);
    assert_eq!(ua, ub);
    assert_ne!(heap.closure_upvalue(b, 0), ua);
    heap.write_upvalue(ua, 12);
    assert_eq!(heap.read_upvalue(ub), 12);
    assert_eq!(heap.get_slot(1), 12);
    heap.close_frame(0);
    heap.write_upvalue(ub, 13);
    assert_eq!(heap.read_upvalue(ua), 13);
}

#[test]
fn open_cell_lookup() {
    let mut heap: Heap<u64, u8> = Heap::new();
    heap.push_slot(0);
    heap.push_slot(0);
    assert_eq!(heap.open_upvalue(1), None);
    let p = heap.alloc_proto(proto(2, vec![UpValDesc::ParentLocal(1)]));
    let c = heap.make_closure(p, 0, None);
    let u = heap.closure_upvalue(c, 0);
    assert_eq!(heap.open_upvalue(1), Some(u));
    assert_eq!(heap.open_upvalue(0), None);
    heap.close_frame(0);
    assert_eq!(heap.open_upvalue(1), None);
}

#[test]
fn closing_upper_frame_keeps_lower_cells_open() {
    let mut heap: Heap<u64, u8> = Heap::new();
    heap.push_slot(1);
    heap.push_slot(2);
    heap.push_slot(3);
    let low = heap.alloc_proto(proto(1, vec![UpValDesc::ParentLocal(0)]));
    let high = heap.alloc_proto(proto(1, vec![UpValDesc::ParentLocal(0)]));
    let a = heap.make_closure(low, 0, None);
    let b = heap.make_closure(high, 2, None);
    let ua = heap.closure_upvalue(a, 0);
    let ub = heap.closure_upvalue(b, 0);
    assert_ne!(ua, ub);
    heap.close_frame(2);
    assert_eq!(heap.stack_len(), 2);
    assert!(matches!(heap.upvalue(ua), UpValue::Open(0)));
    assert!(matches!(heap.upvalue(ub), UpValue::Closed(3)));
    heap.set_slot(0, 50);
    assert_eq!(heap.read_upvalue(ua), 50);
    assert_eq!(heap.read_upvalue(ub), 3);
}

#[test]
fn handles_report_indices() {
    let mut heap: Heap<u64, u8> = Heap::new();
    heap.push_slot(0);
    let p0 = heap.alloc_proto(proto(1, Vec::new()));
    let p1 = heap.alloc_proto(proto(1, vec![UpValDesc::ParentLocal(0)]));
    assert_eq!(p0.index(), 0);
    assert_eq!(p1.index(), 1);
    let c = heap.make_closure(p1, 0, None);
    assert_eq!(heap.closure_upvalue(c, 0).index(), 0);
    assert_eq!(heap.closure_state(c).proto, p1);
}
