//! What holds of the render context across many calls, stated over the
//! abstract state that the operations of `graphics` are specified by.

use vstd::prelude::*;
use crate::graphics::{
    chained, pass_follows, restored_pass, DrawPass, DrawState, LastApplied,
};

verus! {

/// One operation on the configuration stack: a push that makes the given
/// clone live, a pop, or a write of a new live value.
pub enum StackOp<P> {
    Push(P),
    Pop,
    Mutate(P),
}

impl<P> DrawState<P> {
    pub open spec fn step(self, op: StackOp<P>) -> DrawState<P> {
        match op {
            StackOp::Push(copy) => self.push_state(copy),
            StackOp::Pop => self.pop_state(),
            StackOp::Mutate(value) => self.mutate_state(value),
        }
    }
}

/// The state after applying `ops` to `s` in order.
pub open spec fn run<P>(s: DrawState<P>, ops: Seq<StackOp<P>>) -> DrawState<P>
    decreases ops.len(),
{
    if ops.len() == 0 {
        s
    } else {
        run(s, ops.drop_last()).step(ops.last())
    }
}

/// Pushes minus pops.
pub open spec fn depth<P>(ops: Seq<StackOp<P>>) -> int
    decreases ops.len(),
{
    if ops.len() == 0 {
        0
    } else {
        depth(ops.drop_last()) + match ops.last() {
            StackOp::Push(_) => 1int,
            StackOp::Pop => -1int,
            StackOp::Mutate(_) => 0int,
        }
    }
}

/// No pop closes a scope that the sequence did not open.
pub open spec fn nested<P>(ops: Seq<StackOp<P>>) -> bool {
    forall|k: int| 0 <= k <= ops.len() ==> depth(#[trigger] ops.take(k)) >= 0
}

/// Every write of the live value happens inside a scope the sequence opened.
pub open spec fn scoped_writes<P>(ops: Seq<StackOp<P>>) -> bool {
    forall|k: int|
        0 <= k < ops.len() && (#[trigger] ops[k] matches StackOp::Mutate(_)) ==> depth(ops.take(k))
            >= 1
}

/// Pushes and pops pair up, and writes happen only inside the pairs.
pub open spec fn balanced<P>(ops: Seq<StackOp<P>>) -> bool {
    nested(ops) && scoped_writes(ops) && depth(ops) == 0
}

proof fn lemma_take_step<P>(s: DrawState<P>, ops: Seq<StackOp<P>>, k: int)
    requires
        0 <= k < ops.len(),
    ensures
        run(s, ops.take(k + 1)) == run(s, ops.take(k)).step(ops[k]),
        depth(ops.take(k + 1)) == depth(ops.take(k)) + match ops[k] {
            StackOp::Push(_) => 1int,
            StackOp::Pop => -1int,
            StackOp::Mutate(_) => 0int,
        },
{
    assert(ops.take(k + 1).drop_last() =~= ops.take(k));
    assert(ops.take(k + 1).last() == ops[k]);
}

/// The stack below the starting depth is never touched, and the value that
/// was live at the start sits just above it while a scope is open.
proof fn lemma_prefix_stack<P>(s: DrawState<P>, ops: Seq<StackOp<P>>, k: int)
    requires
        nested(ops),
        0 <= k <= ops.len(),
    ensures
        ({
            let t = run(s, ops.take(k));
            let d = depth(ops.take(k));
            let n = s.history.len();
            &&& t.history.len() == n + d
            &&& t.history.subrange(0, n as int) == s.history
            &&& scoped_writes(ops) && d >= 1 ==> t.history[n as int] == s.current
            &&& scoped_writes(ops) && d == 0 ==> t.current == s.current
        }),
    decreases k,
{
    let n = s.history.len() as int;
    if k == 0 {
        assert(ops.take(0) =~= Seq::<StackOp<P>>::empty());
        assert(s.history.subrange(0, n) =~= s.history);
    } else {
        lemma_prefix_stack(s, ops, k - 1);
        lemma_take_step(s, ops, k - 1);
        assert(depth(ops.take(k)) >= 0);
        let t = run(s, ops.take(k - 1));
        let u = run(s, ops.take(k));
        match ops[k - 1] {
            StackOp::Push(c) => {
                assert(u.history == t.history.push(t.current));
                assert(u.history.subrange(0, n) =~= t.history.subrange(0, n));
            },
            StackOp::Pop => {
                assert(u.history =~= t.history.subrange(0, t.history.len() - 1));
                assert(u.history.subrange(0, n) =~= t.history.subrange(0, n));
            },
            StackOp::Mutate(v) => {
                if scoped_writes(ops) {
                    assert(ops[k - 1] matches StackOp::Mutate(_));
                }
            },
        }
    }
}

/// A balanced sequence of pushes, pops and scoped writes leaves the live
/// configuration and the archived stack as they were.
pub proof fn lemma_balanced_restores<P>(s: DrawState<P>, ops: Seq<StackOp<P>>)
    requires
        balanced(ops),
    ensures
        run(s, ops).current == s.current,
        run(s, ops).history == s.history,
{
    lemma_prefix_stack(s, ops, ops.len() as int);
    assert(ops.take(ops.len() as int) =~= ops);
    let t = run(s, ops);
    assert(t.history =~= t.history.subrange(0, s.history.len() as int));
}

/// A push followed by a pop gives back the state from before the push, and
/// with it what `last_applied` said.
pub proof fn lemma_push_pop_identity<P>(s: DrawState<P>, copy: P)
    requires
        s.wf(),
    ensures
        s.push_state(copy).pop_state() == s,
        s.push_state(copy).pop_state().last_applied == s.last_applied,
{
    assert(s.history.push(s.current).subrange(0, s.history.len() as int) =~= s.history);
}

/// Reconciling twice in a row makes at most one device update: the second
/// call changes nothing.
pub proof fn lemma_reconcile_idempotent<P>(s: DrawState<P>, first: P, second: P)
    ensures
        s.reconcile_state(first).reconcile_state(second) == s.reconcile_state(first),
        s.reconcile_state(first).applied.len() <= s.applied.len() + 1,
        s.last_applied != LastApplied::<P>::Current ==> s.reconcile_state(first).applied.len()
            == s.applied.len() + 1,
{
}

proof fn lemma_reconcile_wf<P>(s: DrawState<P>, value: P)
    requires
        s.wf(),
    ensures
        s.reconcile_state(value).wf(),
        s.reconcile_state(value).shown() == Some(s.reconcile_state(value).current),
{
    let t = s.reconcile_state(value);
    if s.last_applied != LastApplied::<P>::Current {
        assert forall|k: int| 0 <= k < t.applied.len() implies (#[trigger] t.applied[k]).0 == (
        if k == 0 {
            None
        } else {
            Some(t.applied[k - 1].1)
        }) by {
            if k < s.applied.len() {
                assert(t.applied[k] == s.applied[k]);
            }
        }
    }
}

proof fn lemma_step_wf<P>(s: DrawState<P>, op: StackOp<P>)
    requires
        s.wf(),
        op matches StackOp::Pop ==> s.history.len() > 0,
        op matches StackOp::Push(_) ==> s.history.len() < usize::MAX,
    ensures
        s.step(op).wf(),
{
    let t = s.step(op);
    match op {
        StackOp::Push(c) => {
            if let LastApplied::AtHistory(i) = s.last_applied {
                assert(t.history[i as int] == s.history[i as int]);
            }
        },
        StackOp::Pop => {
            let n = s.history.len() - 1;
            if let LastApplied::AtHistory(i) = s.last_applied {
                if i < n {
                    assert(t.history[i as int] == s.history[i as int]);
                }
            }
        },
        StackOp::Mutate(v) => {},
    }
}

proof fn lemma_prefix_wf<P>(s: DrawState<P>, ops: Seq<StackOp<P>>, k: int)
    requires
        s.wf(),
        nested(ops),
        s.history.len() + ops.len() <= usize::MAX,
        0 <= k <= ops.len(),
    ensures
        run(s, ops.take(k)).wf(),
    decreases k,
{
    if k == 0 {
        assert(ops.take(0) =~= Seq::<StackOp<P>>::empty());
    } else {
        lemma_prefix_wf(s, ops, k - 1);
        lemma_take_step(s, ops, k - 1);
        lemma_prefix_stack(s, ops, k - 1);
        lemma_depth_bound(ops, k - 1);
        assert(depth(ops.take(k)) >= 0);
        lemma_step_wf(run(s, ops.take(k - 1)), ops[k - 1]);
    }
}

proof fn lemma_depth_bound<P>(ops: Seq<StackOp<P>>, k: int)
    requires
        0 <= k <= ops.len(),
    ensures
        depth(ops.take(k)) <= k,
    decreases k,
{
    if k == 0 {
        assert(ops.take(0) =~= Seq::<StackOp<P>>::empty());
    } else {
        lemma_depth_bound(ops, k - 1);
        assert(ops.take(k).drop_last() =~= ops.take(k - 1));
    }
}

/// Whatever scopes were opened, written and closed without drawing, the
/// next reconcile sends a single update from exactly what the device shows
/// to the live configuration, and afterwards the device shows the live
/// configuration: the same end state a full application would give.
pub proof fn lemma_reconcile_after_scopes<P>(s: DrawState<P>, ops: Seq<StackOp<P>>, value: P)
    requires
        s.wf(),
        nested(ops),
        s.history.len() + ops.len() <= usize::MAX,
    ensures
        ({
            let r = run(s, ops);
            let t = r.reconcile_state(value);
            &&& r.wf()
            &&& t.wf()
            &&& chained(t.applied)
            &&& t.last_applied == LastApplied::<P>::Current
            &&& t.shown() == Some(t.current)
            &&& r.last_applied != LastApplied::<P>::Current ==> t.applied == r.applied.push(
                (r.shown(), value),
            )
        }),
{
    lemma_prefix_wf(s, ops, ops.len() as int);
    assert(ops.take(ops.len() as int) =~= ops);
    lemma_reconcile_wf(run(s, ops), value);
}

/// Once a traversal is marked not ready it stays so: in a run of passes
/// where each step leaves the pass or marks it not ready, a not-ready pass
/// at any point means the run ends not ready.
pub proof fn lemma_not_ready_sticks(passes: Seq<DrawPass>, k: int)
    requires
        forall|i: int| 0 <= i < passes.len() - 1 ==> pass_follows(passes[i], #[trigger] passes[i + 1]),
        0 <= k < passes.len(),
        passes[k] == DrawPass::UpdateContext,
    ensures
        forall|j: int| k <= j < passes.len() ==> #[trigger] passes[j] == DrawPass::UpdateContext,
        passes.last() == DrawPass::UpdateContext,
{
    assert forall|j: int| k <= j < passes.len() implies #[trigger] passes[j]
        == DrawPass::UpdateContext by {
        lemma_not_ready_upto(passes, k, j);
    }
}

proof fn lemma_not_ready_upto(passes: Seq<DrawPass>, k: int, j: int)
    requires
        forall|i: int| 0 <= i < passes.len() - 1 ==> pass_follows(passes[i], #[trigger] passes[i + 1]),
        0 <= k <= j < passes.len(),
        passes[k] == DrawPass::UpdateContext,
    ensures
        passes[j] == DrawPass::UpdateContext,
    decreases j - k,
{
    if j > k {
        lemma_not_ready_upto(passes, k, j - 1);
        assert(pass_follows(passes[j - 1], passes[(j - 1) + 1]));
    }
}

/// A forced redraw inside a `DrawRemaining` pass hands `DrawRemaining` back,
/// unless its body marked the pass not ready, which then prevails.
pub proof fn lemma_force_redraw_restores(body_after: DrawPass)
    requires
        pass_follows(DrawPass::DrawAll, body_after),
    ensures
        body_after == DrawPass::UpdateContext ==> restored_pass(DrawPass::DrawRemaining, body_after)
            == DrawPass::UpdateContext,
        body_after != DrawPass::UpdateContext ==> restored_pass(DrawPass::DrawRemaining, body_after)
            == DrawPass::DrawRemaining,
{
}

/// A root that leaves the pass not ready makes the traversal end not ready:
/// over the states a traversal passes through, where each root's draw
/// leaves the pass or marks it not ready, a not-ready state after any root
/// means the last state is not ready, and `draw` then reports the frame
/// incomplete.
pub proof fn lemma_not_ready_root_makes_incomplete<P, C>(
    states: Seq<(DrawState<P>, C)>,
    k: int,
)
    requires
        forall|i: int|
            0 <= i < states.len() - 1 ==> pass_follows(
                states[i].0.pass,
                (#[trigger] states[i + 1]).0.pass,
            ),
        0 <= k < states.len(),
        states[k].0.pass == DrawPass::UpdateContext,
    ensures
        states.last().0.pass == DrawPass::UpdateContext,
{
    let passes = Seq::new(states.len(), |i: int| states[i].0.pass);
    assert forall|i: int| 0 <= i < passes.len() - 1 implies pass_follows(
        passes[i],
        #[trigger] passes[i + 1],
    ) by {
        assert(pass_follows(states[i].0.pass, states[i + 1].0.pass));
    }
    lemma_not_ready_sticks(passes, k);
    assert(passes.last() == states.last().0.pass);
}

/// A scope whose body keeps the stack and what `last_applied` says gives
/// back, when it closes, the `last_applied` from before it opened.
pub proof fn lemma_scope_keeps_last_applied<P>(s: DrawState<P>, copy: P, body_end: DrawState<P>)
    requires
        s.wf(),
        body_end.history == s.push_state(copy).history,
        body_end.last_applied == s.push_state(copy).last_applied,
    ensures
        body_end.pop_state().last_applied == s.last_applied,
        body_end.pop_state().current == s.current,
        body_end.pop_state().history == s.history,
{
    assert(s.history.push(s.current).subrange(0, s.history.len() as int) =~= s.history);
}

} // verus!
