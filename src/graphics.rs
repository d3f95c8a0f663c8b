//! The render context: a stack of configurations over one device, the
//! bookkeeping that tells which configuration the device reflects, and the
//! draw-pass protocol threaded through a traversal.

use vstd::prelude::*;

verus! {

/// A backend's render configuration (transform, blending, bound texture,
/// tint, ...), applied to a device of type `C`.
pub trait DrawParams<C>: Sized {
    /// Writes every part of this configuration to the device, whatever the
    /// device showed before.
    fn apply_all(&mut self, ctx: &mut C);

    /// Writes only what differs between `current`, which the device reflects
    /// exactly, and `new`.
    fn apply_change(current: &Self, new: &mut Self, ctx: &mut C);
}

/// What the device reflects, as far as the render context knows.
pub enum LastApplied<P> {
    /// Nothing has been applied through this context yet.
    Never,
    /// The device reflects the live configuration.
    Current,
    /// The device reflects the archived configuration at this index.
    AtHistory(usize),
    /// The device reflects a configuration that is no longer on the stack.
    Orphaned(P),
}

impl<P> Default for LastApplied<P> {
    fn default() -> (r: Self)
        ensures
            r == LastApplied::<P>::Never,
    {
        LastApplied::Never
    }
}

/// The kind of traversal under way.
#[derive(Clone, Copy, Debug, PartialEq, Eq, Structural)]
pub enum DrawPass {
    /// A first attempt: everything is drawn.
    DrawAll,
    /// Some drawable was not ready: the rest of the traversal only prepares.
    UpdateContext,
    /// A retry: only what still needs drawing is drawn.
    DrawRemaining,
}

/// One device update made through a render context: the configuration the
/// update started from (`None` for a full application) and the one it set.
pub type Applied<P> = (Option<P>, P);

/// The abstract state of a render context.
pub struct DrawState<P> {
    pub current: P,
    pub history: Seq<P>,
    pub last_applied: LastApplied<P>,
    pub pass: DrawPass,
    /// Every device update this context has made so far, oldest first.
    pub applied: Seq<Applied<P>>,
}

/// Each update starts from exactly what the one before it set; the first one
/// is a full application.
pub open spec fn chained<P>(applied: Seq<Applied<P>>) -> bool {
    forall|k: int|
        0 <= k < applied.len() ==> (#[trigger] applied[k]).0 == (if k == 0 {
            None
        } else {
            Some(applied[k - 1].1)
        })
}

/// A traversal step may leave the pass as it was or mark it not ready.
pub open spec fn pass_follows(before: DrawPass, after: DrawPass) -> bool {
    after == before || after == DrawPass::UpdateContext
}

/// The pass a traversal starts under, given the pass before it.
pub open spec fn entry_pass(before: DrawPass) -> DrawPass {
    if before == DrawPass::UpdateContext {
        DrawPass::DrawRemaining
    } else {
        before
    }
}

/// The pass under which the body of `force_redraw` runs.
pub open spec fn forced_pass(before: DrawPass) -> DrawPass {
    if before == DrawPass::DrawRemaining {
        DrawPass::DrawAll
    } else {
        before
    }
}

/// The pass after `force_redraw`, given the pass before it and the pass its
/// body left.
pub open spec fn restored_pass(before: DrawPass, body_after: DrawPass) -> DrawPass {
    if before == DrawPass::DrawRemaining && body_after != DrawPass::UpdateContext {
        DrawPass::DrawRemaining
    } else {
        body_after
    }
}

impl<P> DrawState<P> {
    /// The state of a fresh context.
    pub open spec fn initial(starting: P, first_pass: bool) -> DrawState<P> {
        DrawState {
            current: starting,
            history: Seq::empty(),
            last_applied: LastApplied::Never,
            pass: if first_pass {
                DrawPass::DrawAll
            } else {
                DrawPass::DrawRemaining
            },
            applied: Seq::empty(),
        }
    }

    /// What the device shows: what the last update set.
    pub open spec fn shown(self) -> Option<P> {
        if self.applied.len() == 0 {
            None
        } else {
            Some(self.applied.last().1)
        }
    }

    /// What `last_applied` says the device shows.
    pub open spec fn source(self) -> Option<P> {
        match self.last_applied {
            LastApplied::Never => None,
            LastApplied::Current => Some(self.current),
            LastApplied::AtHistory(i) => Some(self.history[i as int]),
            LastApplied::Orphaned(o) => Some(o),
        }
    }

    /// The bookkeeping is sound: the stack's length fits a `usize`, an
    /// archived index lies on the stack, and `last_applied` names exactly
    /// what the device shows.
    pub open spec fn wf(self) -> bool {
        &&& self.history.len() <= usize::MAX
        &&& chained(self.applied)
        &&& (self.last_applied matches LastApplied::AtHistory(i) ==> i < self.history.len())
        &&& self.shown() == self.source()
    }

    pub open spec fn with_pass(self, pass: DrawPass) -> DrawState<P> {
        DrawState { pass, ..self }
    }

    /// Opening a scope: the live value is archived and `copy`, a clone of it,
    /// becomes live.
    pub open spec fn push_state(self, copy: P) -> DrawState<P> {
        DrawState {
            current: copy,
            history: self.history.push(self.current),
            last_applied: match self.last_applied {
                LastApplied::Current => LastApplied::AtHistory(self.history.len() as usize),
                other => other,
            },
            ..self
        }
    }

    /// Closing a scope: the last archived value becomes live again.
    pub open spec fn pop_state(self) -> DrawState<P> {
        let n = self.history.len() - 1;
        DrawState {
            current: self.history[n],
            history: self.history.subrange(0, n),
            last_applied: match self.last_applied {
                LastApplied::AtHistory(i) => if i < n {
                    LastApplied::AtHistory(i)
                } else if i == n {
                    LastApplied::Current
                } else {
                    LastApplied::Never
                },
                LastApplied::Current => LastApplied::Orphaned(self.current),
                other => other,
            },
            ..self
        }
    }

    /// Replacing the live value; if the device showed it, the device now
    /// shows a value that is off the stack.
    pub open spec fn mutate_state(self, value: P) -> DrawState<P> {
        DrawState {
            current: value,
            last_applied: match self.last_applied {
                LastApplied::Current => LastApplied::Orphaned(self.current),
                other => other,
            },
            ..self
        }
    }

    /// Reconciling: unless the device already shows the live value, one
    /// update goes from what it shows to the live value (`value` is the live
    /// value as the backend left it).
    pub open spec fn reconcile_state(self, value: P) -> DrawState<P> {
        match self.last_applied {
            LastApplied::Current => self,
            _ => DrawState {
                current: value,
                last_applied: LastApplied::Current,
                applied: self.applied.push((self.source(), value)),
                ..self
            },
        }
    }
}

/// The render context of one traversal: it owns the device handle, the live
/// configuration and the archived ancestors of the live configuration.
pub struct DrawContext<C, P> {
    context: C,
    current: P,
    history: Vec<P>,
    last_applied: LastApplied<P>,
    pass: DrawPass,
    applied: Ghost<Seq<Applied<P>>>,
}

impl<C, P> View for DrawContext<C, P> {
    type V = DrawState<P>;

    closed spec fn view(&self) -> DrawState<P> {
        DrawState {
            current: self.current,
            history: self.history@,
            last_applied: self.last_applied,
            pass: self.pass,
            applied: self.applied@,
        }
    }
}

impl<C, P: DrawParams<C>> DrawContext<C, P> {
    /// The device handle.
    pub closed spec fn device(&self) -> C {
        self.context
    }

    /// A context over `ctx` whose live configuration is `starting`; the
    /// pass is `DrawAll` on a first attempt and `DrawRemaining` on a retry.
    pub fn new(ctx: C, starting: P, first_pass: bool) -> (r: Self)
        ensures
            r@ == DrawState::initial(starting, first_pass),
            r.device() == ctx,
    {
        let pass = if first_pass {
            DrawPass::DrawAll
        } else {
            DrawPass::DrawRemaining
        };
        DrawContext {
            context: ctx,
            current: starting,
            history: Vec::new(),
            last_applied: LastApplied::Never,
            pass,
            applied: Ghost(Seq::empty()),
        }
    }

    pub fn pass(ctx: &Self) -> (r: DrawPass)
        ensures
            r == ctx@.pass,
    {
        ctx.pass
    }

    pub fn render_ctx(ctx: &Self) -> (r: &C)
        ensures
            *r == ctx.device(),
    {
        &ctx.context
    }

    pub fn render_ctx_mut(ctx: &mut Self) -> (r: &mut C)
        ensures
            *r == old(ctx).device(),
            final(ctx).device() == *final(r),
            final(ctx)@ == old(ctx)@,
    {
        &mut ctx.context
    }

    /// Signals that a drawable cannot finish this pass.
    pub fn graphic_not_ready(ctx: &mut Self)
        ensures
            final(ctx)@ == old(ctx)@.with_pass(DrawPass::UpdateContext),
            final(ctx).device() == old(ctx).device(),
    {
        ctx.pass = DrawPass::UpdateContext;
    }

    /// Brings the device to the live configuration with at most one update,
    /// computed from what the device shows. Called right before real draw
    /// calls, never during an `UpdateContext` pass.
    pub fn prepare_draw(ctx: &mut Self)
        requires
            old(ctx)@.wf(),
            old(ctx)@.pass != DrawPass::UpdateContext,
        ensures
            final(ctx)@ == old(ctx)@.reconcile_state(final(ctx)@.current),
            final(ctx)@.wf(),
            old(ctx)@.last_applied == LastApplied::<P>::Current ==> final(ctx).device() == old(
                ctx,
            ).device(),
            old(ctx)@.last_applied == LastApplied::<P>::Never ==> exists|v: &mut P, d: &mut C|
                {
                    &&& *v == old(ctx)@.current
                    &&& *d == old(ctx).device()
                    &&& #[trigger] call_ensures(<P as DrawParams<C>>::apply_all, (v, d), ())
                    &&& *final(v) == final(ctx)@.current
                    &&& *final(d) == final(ctx).device()
                },
            old(ctx)@.last_applied matches LastApplied::AtHistory(i) ==> exists|v: &mut P, d: &mut C|
                {
                    &&& *v == old(ctx)@.current
                    &&& *d == old(ctx).device()
                    &&& #[trigger] call_ensures(
                        <P as DrawParams<C>>::apply_change,
                        (&old(ctx)@.history[i as int], v, d),
                        (),
                    )
                    &&& *final(v) == final(ctx)@.current
                    &&& *final(d) == final(ctx).device()
                },
            old(ctx)@.last_applied matches LastApplied::Orphaned(o) ==> exists|v: &mut P, d: &mut C|
                {
                    &&& *v == old(ctx)@.current
                    &&& *d == old(ctx).device()
                    &&& #[trigger] call_ensures(<P as DrawParams<C>>::apply_change, (&o, v, d), ())
                    &&& *final(v) == final(ctx)@.current
                    &&& *final(d) == final(ctx).device()
                },
    {
        let mut last = LastApplied::Current;
        std::mem::swap(&mut ctx.last_applied, &mut last);
        match last {
            LastApplied::Current => {},
            LastApplied::Never => {
                ctx.current.apply_all(&mut ctx.context);
                ctx.applied = Ghost(ctx.applied@.push((None, ctx.current)));
            },
            LastApplied::Orphaned(shown) => {
                DrawParams::apply_change(&shown, &mut ctx.current, &mut ctx.context);
                ctx.applied = Ghost(ctx.applied@.push((Some(shown), ctx.current)));
            },
            LastApplied::AtHistory(index) => {
                DrawParams::apply_change(&ctx.history[index], &mut ctx.current, &mut ctx.context);
                ctx.applied = Ghost(ctx.applied@.push((Some(ctx.history@[index as int]), ctx.current)));
            },
        }
        proof {
            let a = ctx.applied@;
            assert forall|k: int| 0 <= k < a.len() implies (#[trigger] a[k]).0 == (if k == 0 {
                None
            } else {
                Some(a[k - 1].1)
            }) by {
                if k < old(ctx)@.applied.len() {
                    assert(a[k] == old(ctx)@.applied[k]);
                }
            }
        }
    }

    /// The traversal entry point: a pass left not ready by an earlier
    /// attempt starts over as `DrawRemaining`, every root is drawn once, in
    /// order, from the state the one before it left (`states`), and the
    /// result says whether the pass ended not ready, in which case the frame
    /// needs another attempt.
    pub fn draw<G: Graphic<C, P>>(ctx: &mut Self, roots: &mut Vec<G>) -> (incomplete: bool)
        requires
            old(ctx)@.wf(),
        ensures
            final(ctx)@.wf(),
            final(ctx)@.history == old(ctx)@.history,
            pass_follows(entry_pass(old(ctx)@.pass), final(ctx)@.pass),
            incomplete == (final(ctx)@.pass == DrawPass::UpdateContext),
            exists|states: Seq<(DrawState<P>, C)>|
                {
                    &&& states.len() == old(roots)@.len() + 1
                    &&& states[0] == (
                        old(ctx)@.with_pass(entry_pass(old(ctx)@.pass)),
                        old(ctx).device(),
                    )
                    &&& states.last() == (final(ctx)@, final(ctx).device())
                    &&& forall|k: int|
                        0 <= k < old(roots)@.len() ==> {
                            &&& pass_follows(states[k].0.pass, (#[trigger] states[k + 1]).0.pass)
                            &&& exists|g: &mut G, c: &mut DrawContext<C, P>|
                                {
                                    &&& *g == old(roots)@[k]
                                    &&& (*c)@ == states[k].0
                                    &&& (*c).device() == states[k].1
                                    &&& #[trigger] call_ensures(<G as Graphic<C, P>>::draw, (g, c), ())
                                    &&& *final(g) == final(roots)@[k]
                                    &&& (*final(c))@ == states[k + 1].0
                                    &&& (*final(c)).device() == states[k + 1].1
                                }
                        }
                },
    {
        if ctx.pass == DrawPass::UpdateContext {
            ctx.pass = DrawPass::DrawRemaining;
        }
        assert(ctx@ == old(ctx)@.with_pass(entry_pass(old(ctx)@.pass)));
        roots.draw(ctx);
        ctx.pass == DrawPass::UpdateContext
    }

    /// Ends the traversal: unless the pass ended not ready, the device is
    /// brought to the live configuration.
    pub fn finish(ctx: &mut Self)
        requires
            old(ctx)@.wf(),
        ensures
            final(ctx)@.wf(),
            old(ctx)@.pass == DrawPass::UpdateContext ==> final(ctx)@ == old(ctx)@,
            old(ctx)@.pass == DrawPass::UpdateContext ==> final(ctx).device() == old(ctx).device(),
            old(ctx)@.pass != DrawPass::UpdateContext ==> final(ctx)@ == old(ctx)@.reconcile_state(
                final(ctx)@.current,
            ),
            old(ctx)@.pass != DrawPass::UpdateContext ==> old(ctx)@.last_applied == LastApplied::<P>::Current ==> final(ctx).device() == old(
                ctx,
            ).device(),
            old(ctx)@.pass != DrawPass::UpdateContext ==> old(ctx)@.last_applied == LastApplied::<P>::Never ==> exists|v: &mut P, d: &mut C|
                {
                    &&& *v == old(ctx)@.current
                    &&& *d == old(ctx).device()
                    &&& #[trigger] call_ensures(<P as DrawParams<C>>::apply_all, (v, d), ())
                    &&& *final(v) == final(ctx)@.current
                    &&& *final(d) == final(ctx).device()
                },
            old(ctx)@.pass != DrawPass::UpdateContext ==> (
            old(ctx)@.last_applied matches LastApplied::AtHistory(i) ==> exists|v: &mut P, d: &mut C|
                {
                    &&& *v == old(ctx)@.current
                    &&& *d == old(ctx).device()
                    &&& #[trigger] call_ensures(
                        <P as DrawParams<C>>::apply_change,
                        (&old(ctx)@.history[i as int], v, d),
                        (),
                    )
                    &&& *final(v) == final(ctx)@.current
                    &&& *final(d) == final(ctx).device()
                }
            ),
            old(ctx)@.pass != DrawPass::UpdateContext ==> (
            old(ctx)@.last_applied matches LastApplied::Orphaned(o) ==> exists|v: &mut P, d: &mut C|
                {
                    &&& *v == old(ctx)@.current
                    &&& *d == old(ctx).device()
                    &&& #[trigger] call_ensures(<P as DrawParams<C>>::apply_change, (&o, v, d), ())
                    &&& *final(v) == final(ctx)@.current
                    &&& *final(d) == final(ctx).device()
                }
            ),
    {
        if ctx.pass != DrawPass::UpdateContext {
            Self::prepare_draw(ctx);
        }
    }

    /// Gives the device handle back, ending the context.
    pub fn into_render_ctx(ctx: Self) -> (r: C)
        ensures
            r == ctx.device(),
    {
        ctx.context
    }

    /// Runs `f` with the pass raised from `DrawRemaining` to `DrawAll`, so
    /// that a subtree is drawn in full; `DrawRemaining` comes back
    /// afterwards unless `f` marked the pass not ready.
    pub fn force_redraw<R, F: FnOnce(&mut Self) -> R>(ctx: &mut Self, f: F) -> (r: R)
        requires
            forall|c: &mut Self|
                (*c)@ == old(ctx)@.with_pass(forced_pass(old(ctx)@.pass)) && (*c).device() == old(
                    ctx,
                ).device() ==> call_requires(f, (c,)),
        ensures
            exists|c: &mut Self|
                {
                    &&& (*c)@ == old(ctx)@.with_pass(forced_pass(old(ctx)@.pass))
                    &&& (*c).device() == old(ctx).device()
                    &&& #[trigger] call_ensures(f, (c,), r)
                    &&& final(ctx)@ == final(c)@.with_pass(
                        restored_pass(old(ctx)@.pass, final(c)@.pass),
                    )
                    &&& final(ctx).device() == final(c).device()
                },
    {
        let restore = Self::raise_pass(ctx);
        assert(ctx@ == old(ctx)@.with_pass(forced_pass(old(ctx)@.pass)));
        assert(ctx.device() == old(ctx).device());
        let ret = f(ctx);
        Self::restore_pass(ctx, restore);
        ret
    }

    /// Draws `graphic` as `force_redraw` runs its body.
    pub fn force_redraw_graphic<G: Graphic<C, P>>(ctx: &mut Self, graphic: &mut G)
        requires
            old(ctx)@.wf(),
        ensures
            final(ctx)@.wf(),
            final(ctx)@.history == old(ctx)@.history,
            pass_follows(old(ctx)@.pass, final(ctx)@.pass),
            exists|g: &mut G, c: &mut Self|
                {
                    &&& *g == *old(graphic)
                    &&& (*c)@ == old(ctx)@.with_pass(forced_pass(old(ctx)@.pass))
                    &&& (*c).device() == old(ctx).device()
                    &&& #[trigger] call_ensures(<G as Graphic<C, P>>::draw, (g, c), ())
                    &&& *final(g) == *final(graphic)
                    &&& final(ctx)@ == (*final(c))@.with_pass(
                        restored_pass(old(ctx)@.pass, (*final(c))@.pass),
                    )
                    &&& final(ctx).device() == (*final(c)).device()
                },
    {
        let restore = Self::raise_pass(ctx);
        assert(ctx@ == old(ctx)@.with_pass(forced_pass(old(ctx)@.pass)));
        graphic.draw(ctx);
        Self::restore_pass(ctx, restore);
    }

    fn raise_pass(ctx: &mut Self) -> (restore: bool)
        ensures
            final(ctx)@ == old(ctx)@.with_pass(forced_pass(old(ctx)@.pass)),
            final(ctx).device() == old(ctx).device(),
            restore == (old(ctx)@.pass == DrawPass::DrawRemaining),
    {
        if ctx.pass == DrawPass::DrawRemaining {
            ctx.pass = DrawPass::DrawAll;
            true
        } else {
            false
        }
    }

    fn restore_pass(ctx: &mut Self, restore: bool)
        ensures
            final(ctx)@ == old(ctx)@.with_pass(
                if restore && old(ctx)@.pass != DrawPass::UpdateContext {
                    DrawPass::DrawRemaining
                } else {
                    old(ctx)@.pass
                },
            ),
            final(ctx).device() == old(ctx).device(),
    {
        if restore && ctx.pass != DrawPass::UpdateContext {
            ctx.pass = DrawPass::DrawRemaining;
        }
    }
}

impl<C, P: DrawParams<C> + Clone> DrawContext<C, P> {
    /// Opens a scope, runs `func` in it and closes it again: whatever `func`
    /// does to the live configuration is undone afterwards.
    pub fn push<R, F: FnOnce(&mut Self) -> R>(ctx: &mut Self, func: F) -> (r: R)
        requires
            old(ctx)@.wf(),
            forall|c: &mut Self| (*c)@.wf() ==> call_requires(func, (c,)),
            forall|c: &mut Self, r: R|
                (*c)@.wf() && #[trigger] call_ensures(func, (c,), r) ==> final(c)@.wf()
                    && final(c)@.history == (*c)@.history,
        ensures
            final(ctx)@.wf(),
            final(ctx)@.current == old(ctx)@.current,
            final(ctx)@.history == old(ctx)@.history,
            exists|c: &mut Self|
                {
                    &&& cloned(old(ctx)@.current, (*c)@.current)
                    &&& (*c)@ == old(ctx)@.push_state((*c)@.current)
                    &&& (*c).device() == old(ctx).device()
                    &&& #[trigger] call_ensures(func, (c,), r)
                    &&& final(ctx)@ == final(c)@.pop_state()
                    &&& final(ctx).device() == final(c).device()
                },
    {
        Self::manually_push(ctx);
        let ret = func(ctx);
        Self::manually_pop(ctx);
        ret
    }

    /// Opens a scope: the live configuration is archived and a clone of it
    /// becomes live.
    pub fn manually_push(ctx: &mut Self)
        requires
            old(ctx)@.wf(),
        ensures
            cloned(old(ctx)@.current, final(ctx)@.current),
            final(ctx)@ == old(ctx)@.push_state(final(ctx)@.current),
            final(ctx)@.wf(),
            final(ctx).device() == old(ctx).device(),
    {
        let mut value = ctx.current.clone();
        std::mem::swap(&mut ctx.current, &mut value);
        ctx.history.push(value);
        let len: usize = ctx.history.len();
        if let LastApplied::Current = ctx.last_applied {
            ctx.last_applied = LastApplied::AtHistory(len - 1);
        }
        proof {
            let o = old(ctx)@;
            assert(ctx.history@[o.history.len() as int] == o.current);
            if let LastApplied::AtHistory(i) = o.last_applied {
                assert(ctx.history@[i as int] == o.history[i as int]);
            }
        }
    }

    /// Closes the innermost scope: the last archived configuration becomes
    /// live again.
    pub fn manually_pop(ctx: &mut Self)
        requires
            old(ctx)@.history.len() > 0,
            old(ctx)@.wf(),
        ensures
            final(ctx)@ == old(ctx)@.pop_state(),
            final(ctx)@.wf(),
            final(ctx).device() == old(ctx).device(),
    {
        match ctx.history.pop() {
            Some(restored) => {
                let mut value = restored;
                std::mem::swap(&mut ctx.current, &mut value);
                let n = ctx.history.len();
                match ctx.last_applied {
                    LastApplied::AtHistory(index) => {
                        ctx.last_applied = if index < n {
                            LastApplied::AtHistory(index)
                        } else if index == n {
                            LastApplied::Current
                        } else {
                            LastApplied::Never
                        };
                    },
                    LastApplied::Current => {
                        ctx.last_applied = LastApplied::Orphaned(value);
                    },
                    _ => {},
                }
                proof {
                    let o = old(ctx)@;
                    if let LastApplied::AtHistory(i) = o.last_applied {
                        if i < n {
                            assert(ctx.history@[i as int] == o.history[i as int]);
                        }
                    }
                }
            },
            None => {},
        }
    }
}

impl<C, P> core::ops::Deref for DrawContext<C, P> {
    type Target = P;

    /// The live configuration.
    fn deref(&self) -> (r: &P)
        ensures
            *r == self@.current,
    {
        &self.current
    }
}

impl<C, P: Clone> core::ops::DerefMut for DrawContext<C, P> {
    /// Mutable access to the live configuration. If the device reflects it,
    /// the applied value is archived first and a clone is handed out, so the
    /// next reconcile sends the change.
    fn deref_mut(&mut self) -> (r: &mut P)
        ensures
            old(self)@.last_applied != LastApplied::<P>::Current ==> *r == old(self)@.current,
            old(self)@.last_applied == LastApplied::<P>::Current ==> cloned(old(self)@.current, *r),
            final(self)@ == old(self)@.mutate_state(*final(r)),
    {
        if let LastApplied::Current = self.last_applied {
            let mut value = self.current.clone();
            std::mem::swap(&mut self.current, &mut value);
            self.last_applied = LastApplied::Orphaned(value);
        }
        &mut self.current
    }
}

/// Something that can be drawn through a render context.
pub trait Graphic<C, P: DrawParams<C>> {
    /// Draws, or during an `UpdateContext` pass only prepares. Scopes opened
    /// are closed again, and the pass is left as it was or marked not ready.
    fn draw(&mut self, ctx: &mut DrawContext<C, P>)
        requires
            old(ctx)@.wf(),
        ensures
            final(ctx)@.wf(),
            final(ctx)@.history == old(ctx)@.history,
            pass_follows(old(ctx)@.pass, final(ctx)@.pass),
    ;
}

impl<C, P: DrawParams<C>> Graphic<C, P> for () {
    fn draw(&mut self, ctx: &mut DrawContext<C, P>) {
    }
}

impl<C, P: DrawParams<C>, T: Graphic<C, P>> Graphic<C, P> for Vec<T> {
    /// Draws each element once, in order: the states that the context (device
    /// included) passes through are `states`, and element `k` is drawn from
    /// `states[k]` to `states[k + 1]`.
    fn draw(&mut self, ctx: &mut DrawContext<C, P>)
        ensures
            exists|states: Seq<(DrawState<P>, C)>|
                {
                    &&& states.len() == old(self)@.len() + 1
                    &&& states[0] == (old(ctx)@, old(ctx).device())
                    &&& states.last() == (final(ctx)@, final(ctx).device())
                    &&& forall|k: int|
                        0 <= k < old(self)@.len() ==> {
                            &&& pass_follows(states[k].0.pass, (#[trigger] states[k + 1]).0.pass)
                            &&& exists|g: &mut T, c: &mut DrawContext<C, P>|
                                {
                                    &&& *g == old(self)@[k]
                                    &&& (*c)@ == states[k].0
                                    &&& (*c).device() == states[k].1
                                    &&& #[trigger] call_ensures(<T as Graphic<C, P>>::draw, (g, c), ())
                                    &&& *final(g) == final(self)@[k]
                                    &&& (*final(c))@ == states[k + 1].0
                                    &&& (*final(c)).device() == states[k + 1].1
                                }
                        }
                },
    {
        let ghost start = (ctx@, ctx.device());
        let ghost mut states: Seq<(DrawState<P>, C)> = seq![start];
        let mut i: usize = 0;
        while i < self.len()
            invariant
                i <= self.len(),
                self@.len() == old(self)@.len(),
                forall|j: int| i <= j < self@.len() ==> self@[j] == old(self)@[j],
                ctx@.wf(),
                ctx@.history == old(ctx)@.history,
                pass_follows(old(ctx)@.pass, ctx@.pass),
                states.len() == i + 1,
                states[0] == (old(ctx)@, old(ctx).device()),
                states.last() == (ctx@, ctx.device()),
                forall|k: int|
                    0 <= k < i ==> {
                        &&& pass_follows(states[k].0.pass, (#[trigger] states[k + 1]).0.pass)
                        &&& exists|g: &mut T, c: &mut DrawContext<C, P>|
                            {
                                &&& *g == old(self)@[k]
                                &&& (*c)@ == states[k].0
                                &&& (*c).device() == states[k].1
                                &&& #[trigger] call_ensures(<T as Graphic<C, P>>::draw, (g, c), ())
                                &&& *final(g) == self@[k]
                                &&& (*final(c))@ == states[k + 1].0
                                &&& (*final(c)).device() == states[k + 1].1
                            }
                    },
            decreases self.len() - i,
        {
            let ghost prev = states;
            let ghost before = self@;
            self[i].draw(ctx);
            proof {
                states = prev.push((ctx@, ctx.device()));
                assert forall|k: int| 0 <= k < i + 1 implies {
                    &&& pass_follows(states[k].0.pass, (#[trigger] states[k + 1]).0.pass)
                    &&& exists|g: &mut T, c: &mut DrawContext<C, P>|
                        {
                            &&& *g == old(self)@[k]
                            &&& (*c)@ == states[k].0
                            &&& (*c).device() == states[k].1
                            &&& #[trigger] call_ensures(<T as Graphic<C, P>>::draw, (g, c), ())
                            &&& *final(g) == self@[k]
                            &&& (*final(c))@ == states[k + 1].0
                            &&& (*final(c)).device() == states[k + 1].1
                        }
                } by {
                    assert(states[k] == prev[k]);
                    if k < i {
                        assert(states[k + 1] == prev[k + 1]);
                        assert(self@[k] == before[k]);
                    }
                }
            }
            i = i + 1;
        }
    }
}

} // verus!
