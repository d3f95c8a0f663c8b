//! Masking: a graphic that limits where the children of its widget draw.
//! The mask graphic is drawn in full on every pass, inside a scope that stays
//! open while the children draw and closes after them.

use vstd::prelude::*;
use crate::graphics::{forced_pass, pass_follows, restored_pass, DrawContext, DrawParams, Graphic};

verus! {

/// A mask made of one graphic.
pub struct Mask<T> {
    pub graphic: T,
}

/// The part of a mask drawn before the children: it opens the masked scope.
pub struct MaskPush<'a, T> {
    mask: &'a mut Mask<T>,
}

/// The part of a mask drawn after the children: it closes the masked scope.
pub struct MaskPop;

/// Opens a scope and draws `graphic` in it as `force_redraw` runs its body.
fn open_mask<C, P, T>(graphic: &mut T, ctx: &mut DrawContext<C, P>)
    where
        P: DrawParams<C> + Clone,
        T: Graphic<C, P>,
    requires
        old(ctx)@.wf(),
    ensures
        final(ctx)@.wf(),
        final(ctx)@.history == old(ctx)@.history.push(old(ctx)@.current),
        pass_follows(old(ctx)@.pass, final(ctx)@.pass),
        exists|g: &mut T, c: &mut DrawContext<C, P>|
            {
                &&& *g == *old(graphic)
                &&& cloned(old(ctx)@.current, (*c)@.current)
                &&& (*c)@ == old(ctx)@.push_state((*c)@.current).with_pass(
                    forced_pass(old(ctx)@.pass),
                )
                &&& (*c).device() == old(ctx).device()
                &&& #[trigger] call_ensures(<T as Graphic<C, P>>::draw, (g, c), ())
                &&& *final(g) == *final(graphic)
                &&& final(ctx)@ == (*final(c))@.with_pass(
                    restored_pass(old(ctx)@.pass, (*final(c))@.pass),
                )
                &&& final(ctx).device() == (*final(c)).device()
            },
{
    DrawContext::manually_push(ctx);
    DrawContext::force_redraw_graphic(ctx, graphic);
}

impl<T> Mask<T> {
    pub fn before_children(&mut self) -> MaskPush<'_, T> {
        MaskPush { mask: self }
    }

    pub fn after_children(&mut self) -> MaskPop {
        MaskPop
    }

    /// Draws the mask around `children`: a scope is opened and the mask
    /// graphic drawn in it in full, then the children are drawn from the
    /// state that left, then the scope is closed.
    pub fn draw_around<C, P, G>(&mut self, ctx: &mut DrawContext<C, P>, children: &mut G)
        where
            P: DrawParams<C> + Clone,
            T: Graphic<C, P>,
            G: Graphic<C, P>,
        requires
            old(ctx)@.wf(),
        ensures
            final(ctx)@.wf(),
            final(ctx)@.history == old(ctx)@.history,
            final(ctx)@.current == old(ctx)@.current,
            pass_follows(old(ctx)@.pass, final(ctx)@.pass),
            exists|g: &mut T, c: &mut DrawContext<C, P>, h: &mut G, e: &mut DrawContext<C, P>|
                #![trigger call_ensures(<T as Graphic<C, P>>::draw, (g, c), ()), call_ensures(<G as Graphic<C, P>>::draw, (h, e), ())]
                {
                    &&& *g == old(self).graphic
                    &&& cloned(old(ctx)@.current, (*c)@.current)
                    &&& (*c)@ == old(ctx)@.push_state((*c)@.current).with_pass(
                        forced_pass(old(ctx)@.pass),
                    )
                    &&& (*c).device() == old(ctx).device()
                    &&& call_ensures(<T as Graphic<C, P>>::draw, (g, c), ())
                    &&& *final(g) == final(self).graphic
                    &&& (*e)@ == (*final(c))@.with_pass(
                        restored_pass(old(ctx)@.pass, (*final(c))@.pass),
                    )
                    &&& (*e).device() == (*final(c)).device()
                    &&& *h == *old(children)
                    &&& call_ensures(<G as Graphic<C, P>>::draw, (h, e), ())
                    &&& *final(h) == *final(children)
                    &&& final(ctx)@ == (*final(e))@.pop_state()
                    &&& final(ctx).device() == (*final(e)).device()
                },
    {
        open_mask(&mut self.graphic, ctx);
        children.draw(ctx);
        DrawContext::manually_pop(ctx);
    }
}

impl<'a, T> MaskPush<'a, T> {
    /// The mask graphic this part draws.
    pub closed spec fn graphic(&self) -> T {
        self.mask.graphic
    }

    /// Opens a scope and draws the mask graphic in it, in full even during a
    /// `DrawRemaining` pass.
    pub fn draw<C, P>(&mut self, ctx: &mut DrawContext<C, P>)
        where
            P: DrawParams<C> + Clone,
            T: Graphic<C, P>,
        requires
            old(ctx)@.wf(),
        ensures
            final(ctx)@.wf(),
            final(ctx)@.history == old(ctx)@.history.push(old(ctx)@.current),
            pass_follows(old(ctx)@.pass, final(ctx)@.pass),
            exists|g: &mut T, c: &mut DrawContext<C, P>|
                {
                    &&& *g == old(self).graphic()
                    &&& cloned(old(ctx)@.current, (*c)@.current)
                    &&& (*c)@ == old(ctx)@.push_state((*c)@.current).with_pass(
                        forced_pass(old(ctx)@.pass),
                    )
                    &&& (*c).device() == old(ctx).device()
                    &&& #[trigger] call_ensures(<T as Graphic<C, P>>::draw, (g, c), ())
                    &&& final(ctx)@ == (*final(c))@.with_pass(
                        restored_pass(old(ctx)@.pass, (*final(c))@.pass),
                    )
                    &&& final(ctx).device() == (*final(c)).device()
                },
    {
        open_mask(&mut self.mask.graphic, ctx);
    }
}

impl MaskPop {
    /// Closes the scope that the matching `MaskPush` opened.
    pub fn draw<C, P>(&mut self, ctx: &mut DrawContext<C, P>)
        where
            P: DrawParams<C> + Clone,
        requires
            old(ctx)@.wf(),
            old(ctx)@.history.len() > 0,
        ensures
            final(ctx)@.wf(),
            final(ctx)@ == old(ctx)@.pop_state(),
            final(ctx).device() == old(ctx).device(),
    {
        DrawContext::manually_pop(ctx);
    }
}

} // verus!
