use suzy::graphics::{DrawContext, DrawParams, DrawPass, Graphic, LastApplied};
use suzy::mask::Mask;

#[derive(Clone, Debug, PartialEq)]
struct Params {
    tint: u32,
    texture: u32,
}

#[derive(Debug, Default)]
struct Device {
    shown: Option<Params>,
    calls: Vec<String>,
    draws: Vec<String>,
}

impl DrawParams<Device> for Params {
    fn apply_all(&mut self, dev: &mut Device) {
        dev.calls.push(format!("all tint={} texture={}", self.tint, self.texture));
        dev.shown = Some(self.clone());
    }

    fn apply_change(current: &Self, new: &mut Self, dev: &mut Device) {
        assert_eq!(dev.shown.as_ref(), Some(current), "diff from a state the device does not show");
        let mut parts = Vec::new();
        if current.tint != new.tint {
            parts.push(format!("tint={}", new.tint));
        }
        if current.texture != new.texture {
            parts.push(format!("texture={}", new.texture));
        }
        dev.calls.push(format!("change {}", parts.join(" ")));
        dev.shown = Some(new.clone());
    }
}

fn start() -> Params {
    Params { tint: 1, texture: 0 }
}

type Ctx = DrawContext<Device, Params>;

fn calls(ctx: &Ctx) -> Vec<String> {
    DrawContext::render_ctx(ctx).calls.clone()
}

fn shown(ctx: &Ctx) -> Option<Params> {
    DrawContext::render_ctx(ctx).shown.clone()
}

/// Draws a named sprite with its own tint, or marks the pass not ready.
struct Sprite {
    name: &'static str,
    tint: u32,
    ready: bool,
}

impl Graphic<Device, Params> for Sprite {
    fn draw(&mut self, ctx: &mut Ctx) {
        if !self.ready {
            DrawContext::graphic_not_ready(ctx);
            return;
        }
        let name = self.name;
        let tint = self.tint;
        DrawContext::push(ctx, |ctx| {
            ctx.tint = tint;
            if DrawContext::pass(ctx) != DrawPass::UpdateContext {
                DrawContext::prepare_draw(ctx);
                let pass = DrawContext::pass(ctx);
                DrawContext::render_ctx_mut(ctx).draws.push(format!("{} {:?}", name, pass));
            }
        });
    }
}

fn sprite(name: &'static str, tint: u32, ready: bool) -> Sprite {
    Sprite { name, tint, ready }
}

#[test]
fn new_context_pass_follows_first_pass_flag() {
    let ctx = DrawContext::new(Device::default(), start(), true);
    assert_eq!(DrawContext::pass(&ctx), DrawPass::DrawAll);
    let ctx = DrawContext::new(Device::default(), start(), false);
    assert_eq!(DrawContext::pass(&ctx), DrawPass::DrawRemaining);
    assert_eq!(*ctx, start());
    assert!(calls(&ctx).is_empty());
}

#[test]
fn last_applied_defaults_to_never() {
    assert!(matches!(LastApplied::<Params>::default(), LastApplied::Never));
}

#[test]
fn first_reconcile_applies_everything() {
    let mut ctx = DrawContext::new(Device::default(), start(), true);
    DrawContext::prepare_draw(&mut ctx);
    assert_eq!(calls(&ctx), vec!["all tint=1 texture=0"]);
    assert_eq!(shown(&ctx), Some(start()));
}

#[test]
fn reconcile_twice_makes_one_update() {
    let mut ctx = DrawContext::new(Device::default(), start(), true);
    DrawContext::prepare_draw(&mut ctx);
    DrawContext::prepare_draw(&mut ctx);
    assert_eq!(calls(&ctx).len(), 1);
    DrawContext::manually_push(&mut ctx);
    ctx.tint = 9;
    DrawContext::prepare_draw(&mut ctx);
    DrawContext::prepare_draw(&mut ctx);
    assert_eq!(calls(&ctx), vec!["all tint=1 texture=0", "change tint=9"]);
}

#[test]
fn scoped_change_is_sent_and_undone() {
    let mut ctx = DrawContext::new(Device::default(), start(), true);
    DrawContext::prepare_draw(&mut ctx);
    DrawContext::push(&mut ctx, |ctx| {
        ctx.tint = 7;
        DrawContext::prepare_draw(ctx);
    });
    assert_eq!(*ctx, start());
    DrawContext::prepare_draw(&mut ctx);
    assert_eq!(
        calls(&ctx),
        vec!["all tint=1 texture=0", "change tint=7", "change tint=1"]
    );
    assert_eq!(shown(&ctx), Some(start()));
}

#[test]
fn skipped_scopes_cost_no_update() {
    let mut ctx = DrawContext::new(Device::default(), start(), true);
    DrawContext::prepare_draw(&mut ctx);
    for tint in 2..6 {
        DrawContext::push(&mut ctx, |ctx| {
            ctx.tint = tint;
            DrawContext::push(ctx, |ctx| ctx.texture = tint * 10);
        });
    }
    DrawContext::prepare_draw(&mut ctx);
    assert_eq!(calls(&ctx), vec!["all tint=1 texture=0"]);
}

#[test]
fn nested_scopes_send_one_minimal_update() {
    let mut ctx = DrawContext::new(Device::default(), start(), true);
    DrawContext::prepare_draw(&mut ctx);
    DrawContext::manually_push(&mut ctx);
    ctx.tint = 3;
    DrawContext::manually_push(&mut ctx);
    ctx.texture = 4;
    DrawContext::manually_push(&mut ctx);
    DrawContext::prepare_draw(&mut ctx);
    assert_eq!(calls(&ctx)[1], "change tint=3 texture=4");
    DrawContext::manually_pop(&mut ctx);
    DrawContext::manually_pop(&mut ctx);
    DrawContext::prepare_draw(&mut ctx);
    assert_eq!(calls(&ctx)[2], "change texture=0");
    assert_eq!(shown(&ctx), Some(Params { tint: 3, texture: 0 }));
    DrawContext::manually_pop(&mut ctx);
    DrawContext::prepare_draw(&mut ctx);
    assert_eq!(calls(&ctx)[3], "change tint=1");
    assert_eq!(calls(&ctx).len(), 4);
}

#[test]
fn never_applied_scope_pops_to_full_application() {
    let mut ctx = DrawContext::new(Device::default(), start(), true);
    DrawContext::push(&mut ctx, |ctx| ctx.tint = 8);
    DrawContext::prepare_draw(&mut ctx);
    assert_eq!(calls(&ctx), vec!["all tint=1 texture=0"]);
}

#[test]
fn balanced_pushes_and_pops_restore_current() {
    let mut ctx = DrawContext::new(Device::default(), start(), true);
    DrawContext::manually_push(&mut ctx);
    ctx.tint = 2;
    DrawContext::manually_push(&mut ctx);
    DrawContext::manually_push(&mut ctx);
    ctx.texture = 5;
    DrawContext::manually_pop(&mut ctx);
    DrawContext::manually_pop(&mut ctx);
    assert_eq!(*ctx, Params { tint: 2, texture: 0 });
    DrawContext::manually_pop(&mut ctx);
    assert_eq!(*ctx, start());
}

#[test]
fn push_then_pop_keeps_applied_state() {
    let mut ctx = DrawContext::new(Device::default(), start(), true);
    DrawContext::prepare_draw(&mut ctx);
    DrawContext::manually_push(&mut ctx);
    DrawContext::manually_pop(&mut ctx);
    DrawContext::prepare_draw(&mut ctx);
    assert_eq!(calls(&ctx).len(), 1);
}

#[test]
fn writing_an_applied_configuration_is_sent() {
    let mut ctx = DrawContext::new(Device::default(), start(), true);
    DrawContext::prepare_draw(&mut ctx);
    ctx.texture = 6;
    DrawContext::prepare_draw(&mut ctx);
    assert_eq!(calls(&ctx), vec!["all tint=1 texture=0", "change texture=6"]);
}

#[test]
fn traversal_draws_every_root_in_order() {
    let mut ctx = DrawContext::new(Device::default(), start(), true);
    let mut roots = vec![sprite("a", 2, true), sprite("b", 3, true)];
    let incomplete = DrawContext::draw(&mut ctx, &mut roots);
    assert!(!incomplete);
    DrawContext::finish(&mut ctx);
    let dev = DrawContext::into_render_ctx(ctx);
    assert_eq!(dev.draws, vec!["a DrawAll", "b DrawAll"]);
    assert_eq!(
        dev.calls,
        vec!["all tint=2 texture=0", "change tint=3", "change tint=1"]
    );
}

#[test]
fn not_ready_makes_traversal_incomplete() {
    let mut ctx = DrawContext::new(Device::default(), start(), true);
    let mut roots = vec![sprite("a", 2, true), sprite("b", 3, false), sprite("c", 4, true)];
    assert!(DrawContext::draw(&mut ctx, &mut roots));
    assert_eq!(DrawContext::pass(&ctx), DrawPass::UpdateContext);
    assert_eq!(DrawContext::render_ctx(&ctx).draws, vec!["a DrawAll"]);
    DrawContext::finish(&mut ctx);
    let dev = DrawContext::into_render_ctx(ctx);
    assert_eq!(dev.calls, vec!["all tint=2 texture=0"]);
}

#[test]
fn retry_after_not_ready_starts_as_draw_remaining() {
    let mut ctx = DrawContext::new(Device::default(), start(), false);
    DrawContext::graphic_not_ready(&mut ctx);
    let mut roots = vec![sprite("a", 2, true)];
    assert!(!DrawContext::draw(&mut ctx, &mut roots));
    assert_eq!(DrawContext::pass(&ctx), DrawPass::DrawRemaining);
    assert_eq!(DrawContext::render_ctx(&ctx).draws, vec!["a DrawRemaining"]);
}

#[test]
fn force_redraw_restores_draw_remaining() {
    let mut ctx = DrawContext::new(Device::default(), start(), false);
    let inner = DrawContext::force_redraw(&mut ctx, |ctx| DrawContext::pass(ctx));
    assert_eq!(inner, DrawPass::DrawAll);
    assert_eq!(DrawContext::pass(&ctx), DrawPass::DrawRemaining);
}

#[test]
fn force_redraw_keeps_not_ready() {
    let mut ctx = DrawContext::new(Device::default(), start(), false);
    DrawContext::force_redraw(&mut ctx, |ctx| DrawContext::graphic_not_ready(ctx));
    assert_eq!(DrawContext::pass(&ctx), DrawPass::UpdateContext);
}

#[test]
fn force_redraw_leaves_draw_all_alone() {
    let mut ctx = DrawContext::new(Device::default(), start(), true);
    let inner = DrawContext::force_redraw(&mut ctx, |ctx| DrawContext::pass(ctx));
    assert_eq!(inner, DrawPass::DrawAll);
    assert_eq!(DrawContext::pass(&ctx), DrawPass::DrawAll);
}

#[test]
fn force_redraw_graphic_draws_in_full() {
    let mut ctx = DrawContext::new(Device::default(), start(), false);
    let mut s = sprite("m", 5, true);
    DrawContext::force_redraw_graphic(&mut ctx, &mut s);
    assert_eq!(DrawContext::pass(&ctx), DrawPass::DrawRemaining);
    assert_eq!(DrawContext::render_ctx(&ctx).draws, vec!["m DrawAll"]);
}

#[test]
fn finish_reconciles_pending_change() {
    let mut ctx = DrawContext::new(Device::default(), start(), true);
    DrawContext::prepare_draw(&mut ctx);
    ctx.tint = 4;
    DrawContext::finish(&mut ctx);
    let dev = DrawContext::into_render_ctx(ctx);
    assert_eq!(dev.calls, vec!["all tint=1 texture=0", "change tint=4"]);
}

#[test]
fn finish_skips_reconcile_when_not_ready() {
    let mut ctx = DrawContext::new(Device::default(), start(), true);
    DrawContext::graphic_not_ready(&mut ctx);
    DrawContext::finish(&mut ctx);
    let dev = DrawContext::into_render_ctx(ctx);
    assert!(dev.calls.is_empty());
}

#[test]
fn unit_and_vec_graphics() {
    let mut ctx = DrawContext::new(Device::default(), start(), true);
    ().draw(&mut ctx);
    let mut v: Vec<Sprite> = Vec::new();
    v.draw(&mut ctx);
    assert!(DrawContext::render_ctx(&ctx).draws.is_empty());
    let mut v = vec![sprite("x", 1, true)];
    v.draw(&mut ctx);
    assert_eq!(DrawContext::render_ctx(&ctx).draws, vec!["x DrawAll"]);
}

#[test]
fn mask_draws_around_children() {
    let mut ctx = DrawContext::new(Device::default(), start(), false);
    let mut mask = Mask { graphic: sprite("mask", 9, true) };
    let mut children = vec![sprite("child", 2, true)];
    mask.draw_around(&mut ctx, &mut children);
    assert_eq!(*ctx, start());
    assert_eq!(DrawContext::pass(&ctx), DrawPass::DrawRemaining);
    assert_eq!(
        DrawContext::render_ctx(&ctx).draws,
        vec!["mask DrawAll", "child DrawRemaining"]
    );
}

#[test]
fn mask_push_and_pop_bracket_a_scope() {
    let mut ctx = DrawContext::new(Device::default(), start(), true);
    let mut mask = Mask { graphic: () };
    let mut push = mask.before_children();
    push.draw(&mut ctx);
    ctx.tint = 12;
    let mut pop = mask.after_children();
    pop.draw(&mut ctx);
    assert_eq!(*ctx, start());
}

struct ForcedNotReady;

impl Graphic<Device, Params> for ForcedNotReady {
    fn draw(&mut self, ctx: &mut Ctx) {
        DrawContext::force_redraw(ctx, |ctx| {
            DrawContext::push(ctx, |ctx| DrawContext::graphic_not_ready(ctx))
        });
    }
}

#[test]
fn nested_not_ready_reaches_traversal_result() {
    let mut ctx = DrawContext::new(Device::default(), start(), false);
    let mut roots = vec![ForcedNotReady];
    assert!(DrawContext::draw(&mut ctx, &mut roots));
    assert_eq!(DrawContext::pass(&ctx), DrawPass::UpdateContext);
    DrawContext::finish(&mut ctx);
    assert!(DrawContext::render_ctx(&ctx).calls.is_empty());
}
