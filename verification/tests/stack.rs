use eval_stack::eval::{Closure, MemoHeap, WeakCell};
use eval_stack::operation::OperationCont;
use eval_stack::position::RawSpan;
use eval_stack::stack::{Marker, Stack};
use eval_stack::term::{Term, UnaryOp};

fn some_closure() -> Closure {
    Closure::atomic_closure(Term::Bool(true))
}

fn some_cont() -> OperationCont {
    OperationCont::Op1(UnaryOp::IsNum, None)
}

fn some_arg_marker() -> Marker {
    Marker::Arg(some_closure(), None)
}

fn some_thunk_marker(heap: &mut MemoHeap) -> Marker {
    let cell = heap.new_cell(some_closure());
    Marker::Thunk(cell.downgrade())
}

fn some_cont_marker() -> Marker {
    Marker::Cont(some_cont(), 42, None)
}

/// A weak handle whose cell has already been dropped by its owner.
fn fresh_dead_weak(heap: &mut MemoHeap) -> WeakCell {
    let cell = heap.new_cell(some_closure());
    let weak = cell.downgrade();
    heap.free(cell);
    weak
}

#[test]
fn marker_differentiates() {
    let mut heap = MemoHeap::new();
    assert!(some_arg_marker().is_arg());
    assert!(some_thunk_marker(&mut heap).is_thunk());
    assert!(some_cont_marker().is_cont());
}

#[test]
fn pushing_and_poping_args() {
    let mut s = Stack::new();
    assert_eq!(0, s.count_args());

    s.push_arg(some_closure(), None);
    s.push_arg(some_closure(), None);
    assert_eq!(2, s.count_args());
    assert_eq!(some_closure(), s.pop_arg().expect("Already checked").0);
    assert_eq!(1, s.count_args());
}

#[test]
fn pushing_and_poping_thunks() {
    let mut heap = MemoHeap::new();
    let mut s = Stack::new();
    assert_eq!(0, s.count_thunks());

    s.push_thunk(fresh_dead_weak(&mut heap));
    s.push_thunk(fresh_dead_weak(&mut heap));
    assert_eq!(2, s.count_thunks());
    s.pop_thunk().expect("Already checked");
    assert_eq!(1, s.count_thunks());
}

#[test]
fn pushing_and_poping_conts() {
    let mut s = Stack::new();
    assert_eq!(0, s.count_conts());

    s.push_op_cont(some_cont(), 3, None);
    s.push_op_cont(some_cont(), 4, None);
    assert_eq!(2, s.count_conts());
    assert_eq!(
        (some_cont(), 4, None),
        s.pop_op_cont().expect("Already checked")
    );
    assert_eq!(1, s.count_conts());
}

#[test]
fn markers_reject_other_variants() {
    let mut heap = MemoHeap::new();
    let arg = some_arg_marker();
    assert!(!arg.is_thunk());
    assert!(!arg.is_cont());
    assert!(!arg.is_eq());
    let thunk = some_thunk_marker(&mut heap);
    assert!(!thunk.is_arg());
    let cont = some_cont_marker();
    assert!(!cont.is_eq());
    let eq = Marker::Eq(some_closure(), some_closure());
    assert!(eq.is_eq());
    assert!(!eq.is_arg());
}

#[test]
fn args_pop_in_reverse_push_order() {
    let a = Closure::atomic_closure(Term::Num(1));
    let b = Closure::atomic_closure(Term::Num(2));
    let c = Closure::atomic_closure(Term::Num(3));
    let mut s = Stack::new();
    s.push_arg(a, None);
    s.push_arg(b, None);
    s.push_arg(c, None);
    assert_eq!(c, s.pop_arg().unwrap().0);
    assert_eq!(b, s.pop_arg().unwrap().0);
    assert_eq!(a, s.pop_arg().unwrap().0);
    assert!(s.pop_arg().is_none());
}

#[test]
fn count_args_resets_on_non_arg_push() {
    let mut heap = MemoHeap::new();
    let mut s = Stack::new();
    s.push_arg(some_closure(), None);
    s.push_arg(some_closure(), None);
    assert_eq!(2, s.count_args());

    s.push_thunk(fresh_dead_weak(&mut heap));
    assert_eq!(0, s.count_args());

    // The frames below the non-argument are unaffected.
    s.pop_thunk().expect("Already checked");
    assert_eq!(2, s.count_args());
}

#[test]
fn eqs_pop_in_reverse_supplied_order() {
    let p1 = (
        Closure::atomic_closure(Term::Num(1)),
        Closure::atomic_closure(Term::Num(10)),
    );
    let p2 = (
        Closure::atomic_closure(Term::Num(2)),
        Closure::atomic_closure(Term::Num(20)),
    );
    let p3 = (
        Closure::atomic_closure(Term::Num(3)),
        Closure::atomic_closure(Term::Num(30)),
    );
    let mut s = Stack::new();
    s.push_eqs(vec![p1, p2, p3]);
    assert_eq!(Some(p3), s.pop_eq());
    assert_eq!(Some(p2), s.pop_eq());
    assert_eq!(Some(p1), s.pop_eq());
    assert_eq!(None, s.pop_eq());
}

#[test]
fn clear_eqs_removes_exactly_the_top_run() {
    let a = Closure::atomic_closure(Term::Bool(true));
    let b = Closure::atomic_closure(Term::Bool(false));
    let mut s = Stack::new();
    s.push_arg(a, None);
    s.push_eqs(vec![(a, a), (a, b), (b, b)]);

    s.clear_eqs();
    assert_eq!(None, s.pop_eq());
    // The non-Eq frame beneath the run is untouched.
    assert_eq!(Some((a, None)), s.pop_arg());
    assert!(s.pop_arg().is_none());
}

#[test]
fn clear_eqs_on_empty_stack_is_a_no_op() {
    let mut s = Stack::new();
    s.clear_eqs();
    assert_eq!(None, s.pop_eq());
    // pop_eq stays "absent" under repetition, without mutation.
    assert_eq!(None, s.pop_eq());
    assert_eq!(0, s.count_args());
}

#[test]
fn popped_thunk_to_dead_cell_resolves_absent() {
    let mut heap = MemoHeap::new();
    let mut s = Stack::new();
    s.push_thunk(fresh_dead_weak(&mut heap));

    let weak = s.pop_thunk().expect("Already checked");
    // The pop itself succeeds; only the resolution is "absent".
    assert_eq!(None, heap.lookup(&weak));
}

#[test]
fn live_thunk_resolves_and_updates() {
    let mut heap = MemoHeap::new();
    let first = Closure::atomic_closure(Term::Num(5));
    let memoized = Closure::atomic_closure(Term::Num(6));
    let cell = heap.new_cell(first);
    let weak = cell.downgrade();

    let mut s = Stack::new();
    s.push_thunk(weak);
    let popped = s.pop_thunk().expect("Already checked");
    assert_eq!(Some(first), heap.lookup(&popped));

    // The memoization update a popped thunk frame asks for.
    assert!(heap.update(&popped, memoized));
    assert_eq!(Some(memoized), heap.lookup(&popped));

    heap.free(cell);
    assert_eq!(None, heap.lookup(&popped));
    assert!(!heap.update(&popped, first));
}

#[test]
fn arg_scenario_counts_and_pops() {
    let a = Closure::atomic_closure(Term::Num(1));
    let b = Closure::atomic_closure(Term::Num(2));
    let mut s = Stack::new();
    s.push_arg(a, None);
    s.push_arg(b, None);
    assert_eq!(2, s.count_args());
    assert_eq!(Some((b, None)), s.pop_arg());
    assert_eq!(1, s.count_args());
    assert_eq!(Some((a, None)), s.pop_arg());
    assert_eq!(0, s.count_args());
    assert_eq!(None, s.pop_arg());
}

#[test]
fn cont_scenario_counts_and_pops() {
    let c = some_cont();
    let mut s = Stack::new();
    s.push_op_cont(c, 3, None);
    s.push_op_cont(c, 4, None);
    assert_eq!(2, s.count_conts());
    assert_eq!(Some((c, 4, None)), s.pop_op_cont());
    assert_eq!(1, s.count_conts());
    assert_eq!(Some((c, 3, None)), s.pop_op_cont());
    assert_eq!(None, s.pop_op_cont());
}

#[test]
fn mismatched_pops_leave_the_stack_unchanged() {
    let a = Closure::atomic_closure(Term::Num(7));
    let span = RawSpan {
        src_id: 1,
        start: 4,
        end: 9,
    };
    let mut s = Stack::new();
    s.push_arg(a, Some(span));

    assert_eq!(None, s.pop_eq());
    assert!(s.pop_thunk().is_none());
    assert!(s.pop_op_cont().is_none());
    // Still there, span included.
    assert_eq!(Some((a, Some(span))), s.pop_arg());
}

#[test]
fn top_peeks_see_only_their_variant() {
    let mut heap = MemoHeap::new();
    let mut s = Stack::new();
    assert!(!s.is_top_thunk());
    assert!(!s.is_top_cont());

    s.push_thunk(fresh_dead_weak(&mut heap));
    assert!(s.is_top_thunk());
    assert!(!s.is_top_cont());

    s.push_op_cont(some_cont(), 0, None);
    assert!(!s.is_top_thunk());
    assert!(s.is_top_cont());

    s.push_arg(some_closure(), None);
    assert!(!s.is_top_thunk());
    assert!(!s.is_top_cont());
}

#[test]
fn into_frames_returns_bottom_first() {
    let mut s = Stack::new();
    s.push_arg(some_closure(), None);
    s.push_op_cont(some_cont(), 1, None);
    let frames = s.into_frames();
    assert_eq!(2, frames.len());
    assert!(frames[0].is_arg());
    assert!(frames[1].is_cont());
}
