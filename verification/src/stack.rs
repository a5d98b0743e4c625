//! The control stack of the abstract machine.
//!
//! One LIFO sequence of typed frames records what remains to be done during
//! evaluation. Frames are pushed when the evaluator suspends its current work
//! to perform a sub-step and removed exactly once, either by a matched
//! conditional pop or as part of the bulk discard of a contiguous run of
//! equality frames.

use crate::eval::{Closure, WeakCell};
use crate::operation::OperationCont;
use crate::position::RawSpan;
use vstd::prelude::*;

verus! {

/// An element of the stack.
#[derive(Debug)]
pub enum Marker {
    /// An equality to test.
    ///
    /// When evaluating one equality `t1 == t2`, the machine may generate
    /// several new equalities to test (for example, comparing two lists
    /// element by element). The first is evaluated and the remaining ones —
    /// the continuation of the whole comparison — are put on the stack as
    /// `Eq` elements. If one of them evaluates to `false`, all the
    /// consecutive `Eq` elements at the top of the stack are discarded.
    Eq(Closure, Closure),
    /// An argument of an application, with the span of the argument node.
    Arg(Closure, Option<RawSpan>),
    /// A non-owning handle to a memoization cell to be updated once the
    /// in-flight computation produces a value.
    Thunk(WeakCell),
    /// The continuation of a primitive operation, with the size the
    /// diagnostic call stack had at suspension time and the span of the
    /// operation node.
    Cont(OperationCont, usize, Option<RawSpan>),
}

impl Marker {
    /// Whether this frame is a pending argument.
    pub open spec fn spec_is_arg(&self) -> bool {
        self matches Marker::Arg(_, _)
    }

    /// Whether this frame is a pending memoization update.
    pub open spec fn spec_is_thunk(&self) -> bool {
        self matches Marker::Thunk(_)
    }

    /// Whether this frame is a suspended operation continuation.
    pub open spec fn spec_is_cont(&self) -> bool {
        self matches Marker::Cont(_, _, _)
    }

    /// Whether this frame is a pending equality check.
    pub open spec fn spec_is_eq(&self) -> bool {
        self matches Marker::Eq(_, _)
    }

    #[verifier::when_used_as_spec(spec_is_arg)]
    pub fn is_arg(&self) -> (r: bool)
        ensures
            r == self.spec_is_arg(),
    {
        match *self {
            Marker::Arg(_, _) => true,
            _ => false,
        }
    }

    #[verifier::when_used_as_spec(spec_is_thunk)]
    pub fn is_thunk(&self) -> (r: bool)
        ensures
            r == self.spec_is_thunk(),
    {
        match *self {
            Marker::Thunk(_) => true,
            _ => false,
        }
    }

    #[verifier::when_used_as_spec(spec_is_cont)]
    pub fn is_cont(&self) -> (r: bool)
        ensures
            r == self.spec_is_cont(),
    {
        match *self {
            Marker::Cont(_, _, _) => true,
            _ => false,
        }
    }

    #[verifier::when_used_as_spec(spec_is_eq)]
    pub fn is_eq(&self) -> (r: bool)
        ensures
            r == self.spec_is_eq(),
    {
        match *self {
            Marker::Eq(..) => true,
            _ => false,
        }
    }
}

/// The length of the maximal suffix of `s` whose elements all satisfy `p`:
/// the scan from the top stops at the first element that fails `p`.
pub open spec fn count_top_run(s: Seq<Marker>, p: spec_fn(Marker) -> bool) -> nat
    decreases s.len(),
{
    if s.len() == 0 || !p(s.last()) {
        0
    } else {
        1 + count_top_run(s.drop_last(), p)
    }
}

/// Whether `s` is non-empty and its top element satisfies `p`.
pub open spec fn top_is(s: Seq<Marker>, p: spec_fn(Marker) -> bool) -> bool {
    s.len() > 0 && p(s.last())
}

/// The predicate an `Arg` frame satisfies, as a value.
pub open spec fn is_arg_p() -> spec_fn(Marker) -> bool {
    |m: Marker| m.spec_is_arg()
}

/// The predicate a `Thunk` frame satisfies, as a value.
pub open spec fn is_thunk_p() -> spec_fn(Marker) -> bool {
    |m: Marker| m.spec_is_thunk()
}

/// The predicate a `Cont` frame satisfies, as a value.
pub open spec fn is_cont_p() -> spec_fn(Marker) -> bool {
    |m: Marker| m.spec_is_cont()
}

/// The predicate an `Eq` frame satisfies, as a value.
pub open spec fn is_eq_p() -> spec_fn(Marker) -> bool {
    |m: Marker| m.spec_is_eq()
}

/// `vals` as a sequence of `Arg` frames, in order.
pub open spec fn arg_markers(vals: Seq<(Closure, Option<RawSpan>)>) -> Seq<Marker> {
    vals.map_values(|vp: (Closure, Option<RawSpan>)| Marker::Arg(vp.0, vp.1))
}

/// `pairs` as a sequence of `Eq` frames, in order.
pub open spec fn eq_markers(pairs: Seq<(Closure, Closure)>) -> Seq<Marker> {
    pairs.map_values(|p: (Closure, Closure)| Marker::Eq(p.0, p.1))
}

/// The stack `s` with the arguments `vals` pushed on top of it, in order.
pub open spec fn with_args(s: Seq<Marker>, vals: Seq<(Closure, Option<RawSpan>)>) -> Seq<Marker> {
    s + arg_markers(vals)
}

/// The stack `s` with the equalities `pairs` pushed on top of it, in order.
pub open spec fn with_eqs(s: Seq<Marker>, pairs: Seq<(Closure, Closure)>) -> Seq<Marker> {
    s + eq_markers(pairs)
}

/// The evaluation stack, mutated only at its tail: push appends, pop removes
/// the last element. Its view is the sequence of frames from bottom to top.
#[derive(Debug)]
pub struct Stack {
    frames: Vec<Marker>,
}

impl View for Stack {
    type V = Seq<Marker>;

    closed spec fn view(&self) -> Seq<Marker> {
        self.frames@
    }
}

impl Stack {
    /// An empty stack.
    pub fn new() -> (s: Stack)
        ensures
            s@ == Seq::<Marker>::empty(),
    {
        Stack { frames: Vec::new() }
    }

    /// Count the number of consecutive elements satisfying `pred` from the
    /// top of the stack. The ghost predicate `p` names the test that `pred`
    /// decides.
    fn count<P: Fn(&Marker) -> bool>(
        &self,
        pred: P,
        Ghost(p): Ghost<spec_fn(Marker) -> bool>,
    ) -> (r: usize)
        requires
            forall|m: &Marker| #[trigger] call_requires(pred, (m,)),
            forall|m: &Marker, b: bool| #[trigger] call_ensures(pred, (m,), b) ==> b == p(*m),
        ensures
            r == count_top_run(self@, p),
    {
        let n = self.frames.len();
        let mut c: usize = 0;
        while c < n && pred(&self.frames[n - 1 - c])
            invariant
                n == self@.len(),
                c <= n,
                forall|j: int| 0 <= j < c ==> #[trigger] p(self@[n - 1 - j]),
                forall|m: &Marker| #[trigger] call_requires(pred, (m,)),
                forall|m: &Marker, b: bool| #[trigger] call_ensures(pred, (m,), b) ==> b == p(*m),
            decreases n - c,
        {
            c += 1;
        }
        proof {
            assert forall|j: int| n - c <= j < n implies p(self@[j]) by {
                assert(p(self@[n - 1 - (n - 1 - j)]));
            }
            lemma_count_top_run_from_suffix(self@, p, c as int);
        }
        c
    }

    /// Count the number of arguments at the top of the stack: how many are
    /// immediately available to a function once it is evaluated, without
    /// popping them.
    pub fn count_args(&self) -> (r: usize)
        ensures
            r == count_top_run(self@, is_arg_p()),
    {
        self.count(Marker::is_arg, Ghost(is_arg_p()))
    }

    /// Count the number of thunks at the top of the stack.
    pub fn count_thunks(&self) -> (r: usize)
        ensures
            r == count_top_run(self@, is_thunk_p()),
    {
        self.count(Marker::is_thunk, Ghost(is_thunk_p()))
    }

    /// Count the number of operation continuations at the top of the stack.
    pub fn count_conts(&self) -> (r: usize)
        ensures
            r == count_top_run(self@, is_cont_p()),
    {
        self.count(Marker::is_cont, Ghost(is_cont_p()))
    }

    /// Push a pending argument.
    pub fn push_arg(&mut self, arg: Closure, pos: Option<RawSpan>)
        ensures
            final(self)@ == old(self)@.push(Marker::Arg(arg, pos)),
    {
        self.frames.push(Marker::Arg(arg, pos))
    }

    /// Push a pending memoization update.
    pub fn push_thunk(&mut self, thunk: WeakCell)
        ensures
            final(self)@ == old(self)@.push(Marker::Thunk(thunk)),
    {
        self.frames.push(Marker::Thunk(thunk))
    }

    /// Push a suspended operation continuation, recording the current size of
    /// the diagnostic call stack.
    pub fn push_op_cont(&mut self, cont: OperationCont, len: usize, pos: Option<RawSpan>)
        ensures
            final(self)@ == old(self)@.push(Marker::Cont(cont, len, pos)),
    {
        self.frames.push(Marker::Cont(cont, len, pos))
    }

    /// Push a sequence of equalities on the stack, one `Eq` frame per pair,
    /// in the order supplied. Because popping removes from the tail, later
    /// pops observe the pairs in reverse of the supplied order: the last pair
    /// of `pairs` is the first one checked. Producers that need a specific
    /// check order must supply the sequence accordingly.
    pub fn push_eqs(&mut self, pairs: Vec<(Closure, Closure)>)
        ensures
            final(self)@ == with_eqs(old(self)@, pairs@),
    {
        proof {
            assert(self@ =~= with_eqs(self@, pairs@.take(0)));
        }
        let n = pairs.len();
        let mut i: usize = 0;
        while i < n
            invariant
                n == pairs@.len(),
                i <= n,
                self@ == with_eqs(old(self)@, pairs@.take(i as int)),
            decreases n - i,
        {
            let pair = pairs[i];
            self.frames.push(Marker::Eq(pair.0, pair.1));
            proof {
                assert(eq_markers(pairs@.take(i as int + 1)) =~= eq_markers(
                    pairs@.take(i as int),
                ).push(Marker::Eq(pairs@[i as int].0, pairs@[i as int].1)));
                assert(self@ =~= with_eqs(old(self)@, pairs@.take(i as int + 1)));
            }
            i += 1;
        }
        proof {
            assert(pairs@.take(n as int) =~= pairs@);
        }
    }

    /// Try to pop an argument from the top of the stack. If "absent" is
    /// returned, the top element was not an argument and the stack is left
    /// unchanged.
    pub fn pop_arg(&mut self) -> (r: Option<(Closure, Option<RawSpan>)>)
        ensures
            match r {
                Some(vp) => old(self)@.last() == Marker::Arg(vp.0, vp.1) && final(self)@
                    == old(self)@.drop_last() && top_is(old(self)@, is_arg_p()),
                None => final(self)@ == old(self)@ && !top_is(old(self)@, is_arg_p()),
            },
    {
        match self.frames.pop() {
            Some(Marker::Arg(arg, pos)) => Some((arg, pos)),
            Some(m) => {
                self.frames.push(m);
                proof {
                    assert(self.frames@ =~= old(self).frames@);
                }
                None
            },
            None => None,
        }
    }

    /// Try to pop a pending memoization update from the top of the stack. If
    /// "absent" is returned, the top element was not a thunk and the stack is
    /// left unchanged.
    pub fn pop_thunk(&mut self) -> (r: Option<WeakCell>)
        ensures
            match r {
                Some(w) => old(self)@.last() == Marker::Thunk(w) && final(self)@ == old(
                    self,
                )@.drop_last() && top_is(old(self)@, is_thunk_p()),
                None => final(self)@ == old(self)@ && !top_is(old(self)@, is_thunk_p()),
            },
    {
        match self.frames.pop() {
            Some(Marker::Thunk(thunk)) => Some(thunk),
            Some(m) => {
                self.frames.push(m);
                proof {
                    assert(self.frames@ =~= old(self).frames@);
                }
                None
            },
            None => None,
        }
    }

    /// Try to pop an operation continuation from the top of the stack. If
    /// "absent" is returned, the top element was not a continuation and the
    /// stack is left unchanged.
    pub fn pop_op_cont(&mut self) -> (r: Option<(OperationCont, usize, Option<RawSpan>)>)
        ensures
            match r {
                Some(c) => old(self)@.last() == Marker::Cont(c.0, c.1, c.2) && final(self)@
                    == old(self)@.drop_last() && top_is(old(self)@, is_cont_p()),
                None => final(self)@ == old(self)@ && !top_is(old(self)@, is_cont_p()),
            },
    {
        match self.frames.pop() {
            Some(Marker::Cont(cont, len, pos)) => Some((cont, len, pos)),
            Some(m) => {
                self.frames.push(m);
                proof {
                    assert(self.frames@ =~= old(self).frames@);
                }
                None
            },
            None => None,
        }
    }

    /// Try to pop an equality from the top of the stack. If "absent" is
    /// returned, the top element was not an equality and the stack is left
    /// unchanged; repeated calls on such a stack keep returning "absent"
    /// without mutation.
    pub fn pop_eq(&mut self) -> (r: Option<(Closure, Closure)>)
        ensures
            match r {
                Some(p) => old(self)@.last() == Marker::Eq(p.0, p.1) && final(self)@ == old(
                    self,
                )@.drop_last() && top_is(old(self)@, is_eq_p()),
                None => final(self)@ == old(self)@ && !top_is(old(self)@, is_eq_p()),
            },
    {
        match self.frames.pop() {
            Some(Marker::Eq(c1, c2)) => Some((c1, c2)),
            Some(m) => {
                self.frames.push(m);
                proof {
                    assert(self.frames@ =~= old(self).frames@);
                }
                None
            },
            None => None,
        }
    }

    /// Check if the top element is a thunk; false on an empty stack.
    pub fn is_top_thunk(&self) -> (r: bool)
        ensures
            r == top_is(self@, is_thunk_p()),
    {
        if self.frames.len() == 0 {
            false
        } else {
            self.frames[self.frames.len() - 1].is_thunk()
        }
    }

    /// Check if the top element is an operation continuation; false on an
    /// empty stack.
    pub fn is_top_cont(&self) -> (r: bool)
        ensures
            r == top_is(self@, is_cont_p()),
    {
        if self.frames.len() == 0 {
            false
        } else {
            self.frames[self.frames.len() - 1].is_cont()
        }
    }

    /// Discard all the consecutive equalities from the top of the stack.
    /// This drops the remaining checks of the structural equality currently
    /// being evaluated — they became moot once one sub-check failed — and
    /// leaves everything beneath that run untouched.
    pub fn clear_eqs(&mut self)
        ensures
            final(self)@ == old(self)@.take(
                old(self)@.len() - count_top_run(old(self)@, is_eq_p()),
            ),
            !top_is(final(self)@, is_eq_p()),
    {
        proof {
            assert(self@ =~= old(self)@.take(old(self)@.len() as int));
            lemma_count_top_run_maximal(old(self)@, is_eq_p());
        }
        let ghost total = count_top_run(old(self)@, is_eq_p());
        let ghost k: int = 0;
        let mut going: bool = true;
        while going
            invariant
                0 <= k <= total,
                total <= old(self)@.len(),
                total == count_top_run(old(self)@, is_eq_p()),
                self@ == old(self)@.take(old(self)@.len() - k),
                count_top_run(self@, is_eq_p()) == total - k,
                !going ==> count_top_run(self@, is_eq_p()) == 0,
            decreases count_top_run(self@, is_eq_p()) + (if going {
                1int
            } else {
                0int
            }),
        {
            match self.pop_eq() {
                Some(_) => {
                    proof {
                        assert(self@ =~= old(self)@.take(old(self)@.len() - (k + 1)));
                        k = k + 1;
                    }
                },
                None => {
                    going = false;
                },
            }
        }
    }

    /// Give up the stack and hand back its frames, bottom first.
    pub fn into_frames(self) -> (v: Vec<Marker>)
        ensures
            v@ == self@,
    {
        self.frames
    }
}

/// If the top `k` elements of `s` all satisfy `p` and the element beneath
/// them, if there is one, does not, then the top run has length exactly `k`.
proof fn lemma_count_top_run_from_suffix(s: Seq<Marker>, p: spec_fn(Marker) -> bool, k: int)
    requires
        0 <= k <= s.len(),
        forall|j: int| s.len() - k <= j < s.len() ==> p(s[j]),
        k < s.len() ==> !p(s[s.len() - k - 1]),
    ensures
        count_top_run(s, p) == k,
    decreases s.len(),
{
    if s.len() == 0 {
    } else if k == 0 {
        assert(!p(s.last()));
    } else {
        assert(p(s.last()));
        assert forall|j: int| s.drop_last().len() - (k - 1) <= j < s.drop_last().len() implies p(
            s.drop_last()[j],
        ) by {
            assert(s.drop_last()[j] == s[j]);
        }
        lemma_count_top_run_from_suffix(s.drop_last(), p, k - 1);
    }
}

/// Law: the count of the top run is the size of the *maximal* contiguous
/// suffix satisfying `p` — every frame of the run satisfies `p`, and the
/// first frame beneath the run, if any, does not. With [`is_arg_p`] this says
/// that [`Stack::count_args`] returns the size of the maximal contiguous top
/// run of `Arg` frames.
pub proof fn lemma_count_top_run_maximal(s: Seq<Marker>, p: spec_fn(Marker) -> bool)
    ensures
        count_top_run(s, p) <= s.len(),
        forall|j: int| s.len() - count_top_run(s, p) <= j < s.len() ==> p(s[j]),
        count_top_run(s, p) < s.len() ==> !p(s[s.len() - count_top_run(s, p) - 1]),
    decreases s.len(),
{
    if s.len() == 0 || !p(s.last()) {
    } else {
        lemma_count_top_run_maximal(s.drop_last(), p);
        let c = count_top_run(s, p) as int;
        assert forall|j: int| s.len() - c <= j < s.len() implies p(s[j]) by {
            if j < s.len() - 1 {
                assert(p(s.drop_last()[j]));
            }
        }
        if c < s.len() {
            assert(!p(s.drop_last()[s.drop_last().len() - (c - 1) - 1]));
        }
    }
}

/// Law: pushing one frame that is not an argument on top of any stack resets
/// the top run of arguments to zero and leaves every frame beneath it
/// unchanged.
pub proof fn lemma_push_non_arg_resets_args(s: Seq<Marker>, m: Marker)
    requires
        !m.spec_is_arg(),
    ensures
        count_top_run(s.push(m), is_arg_p()) == 0,
        s.push(m).drop_last() == s,
{
    assert(s.push(m).last() == m);
    assert(s.push(m).drop_last() =~= s);
}

/// Pushing one more argument on a stack already topped by the batch `vals`
/// extends that batch by one.
pub proof fn lemma_with_args_push(
    s: Seq<Marker>,
    vals: Seq<(Closure, Option<RawSpan>)>,
    v: Closure,
    pos: Option<RawSpan>,
)
    ensures
        with_args(s, vals).push(Marker::Arg(v, pos)) == with_args(s, vals.push((v, pos))),
{
    assert(arg_markers(vals.push((v, pos))) =~= arg_markers(vals).push(Marker::Arg(v, pos)));
    assert(with_args(s, vals).push(Marker::Arg(v, pos)) =~= with_args(s, vals.push((v, pos))));
}

/// Law (LIFO order of arguments): after pushing the arguments `vals` in
/// order on top of `s`, the k-th `pop_arg` (counting from zero) acts on the
/// stack `with_args(s, vals.take(vals.len() - k))`: it finds an `Arg` frame
/// on top, returns the argument pushed k-th from last, and leaves
/// `with_args(s, vals.take(vals.len() - k - 1))`. Together with the contract
/// of [`Stack::pop_arg`], popping as many times as arguments were pushed
/// returns them in exact reverse push order.
pub proof fn lemma_args_pop_lifo(s: Seq<Marker>, vals: Seq<(Closure, Option<RawSpan>)>, k: int)
    requires
        0 <= k < vals.len(),
    ensures
        ({
            let t = with_args(s, vals.take(vals.len() - k));
            &&& top_is(t, is_arg_p())
            &&& t.last() == Marker::Arg(
                vals[vals.len() - 1 - k].0,
                vals[vals.len() - 1 - k].1,
            )
            &&& t.drop_last() == with_args(s, vals.take(vals.len() - k - 1))
        }),
{
    let taken = vals.take(vals.len() - k);
    let t = with_args(s, taken);
    assert(t.last() == arg_markers(taken)[taken.len() - 1]);
    assert(taken[taken.len() - 1] == vals[vals.len() - 1 - k]);
    assert(t.drop_last() =~= with_args(s, vals.take(vals.len() - k - 1)));
}

/// Law (reverse check order of equalities): after `push_eqs(pairs)` on top
/// of `s`, the k-th `pop_eq` (counting from zero) acts on the stack
/// `with_eqs(s, pairs.take(pairs.len() - k))`: it finds an `Eq` frame on
/// top, returns the pair supplied k-th from last, and leaves the earlier
/// pairs beneath. The last pair supplied is therefore the first one checked.
pub proof fn lemma_eqs_pop_reverse(s: Seq<Marker>, pairs: Seq<(Closure, Closure)>, k: int)
    requires
        0 <= k < pairs.len(),
    ensures
        ({
            let t = with_eqs(s, pairs.take(pairs.len() - k));
            &&& top_is(t, is_eq_p())
            &&& t.last() == Marker::Eq(
                pairs[pairs.len() - 1 - k].0,
                pairs[pairs.len() - 1 - k].1,
            )
            &&& t.drop_last() == with_eqs(s, pairs.take(pairs.len() - k - 1))
        }),
{
    let taken = pairs.take(pairs.len() - k);
    let t = with_eqs(s, taken);
    assert(t.last() == eq_markers(taken)[taken.len() - 1]);
    assert(taken[taken.len() - 1] == pairs[pairs.len() - 1 - k]);
    assert(t.drop_last() =~= with_eqs(s, pairs.take(pairs.len() - k - 1)));
}

/// Law (bulk discard is exact): if the top of `s` is not an equality, then
/// after pushing exactly the equalities `pairs` the contiguous top run of
/// `Eq` frames has length exactly `pairs.len()`, and the frames beneath the
/// run are `s` itself. Together with the contract of [`Stack::clear_eqs`],
/// clearing after such a batch removes exactly the batch and leaves every
/// frame beneath untouched, and a following `pop_eq` returns "absent".
pub proof fn lemma_clear_eqs_after_batch(s: Seq<Marker>, pairs: Seq<(Closure, Closure)>)
    requires
        !top_is(s, is_eq_p()),
    ensures
        count_top_run(with_eqs(s, pairs), is_eq_p()) == pairs.len(),
        with_eqs(s, pairs).take(s.len() as int) == s,
    decreases pairs.len(),
{
    let t = with_eqs(s, pairs);
    if pairs.len() == 0 {
        assert(t =~= s);
    } else {
        assert(t.last() == eq_markers(pairs)[pairs.len() - 1]);
        lemma_clear_eqs_after_batch(s, pairs.drop_last());
        assert(t.drop_last() =~= with_eqs(s, pairs.drop_last()));
        assert(t.take(s.len() as int) =~= s);
    }
}

} // verus!
