use vstd::prelude::*;

use crate::rules::{AlphaClass, BlitContext, BlitSpan, RuleRect};

verus! {

// The frame that blending a plan produces, for a blend given as a function, and what holds
// of it.

/// The target after blending every byte of `span` with `f`.
pub open spec fn blend_span(tgt: Seq<u8>, src: Seq<u8>, span: BlitSpan, f: spec_fn(u8, u8, u32) -> u8) -> Seq<u8> {
    Seq::new(
        tgt.len(),
        |p: int|
            if span.tgt_start <= p < span.tgt_start + span.len {
                f(src[span.src_start + (p - span.tgt_start)], tgt[p], span.alpha.bits)
            } else {
                tgt[p]
            },
    )
}

/// The target after blending the spans of `plan`, in order, with `f`.
pub open spec fn render(plan: Seq<BlitSpan>, src: Seq<u8>, tgt: Seq<u8>, f: spec_fn(u8, u8, u32) -> u8) -> Seq<u8>
    decreases plan.len(),
{
    if plan.len() == 0 {
        tgt
    } else {
        blend_span(render(plan.drop_last(), src, tgt, f), src, plan.last(), f)
    }
}

/// Whether `span` writes byte `b` of the target.
pub open spec fn span_covers(span: BlitSpan, b: int) -> bool {
    span.tgt_start <= b < span.tgt_start + span.len
}

/// The value of byte `b` of the target, starting from `x`, after the spans of `plan`.
pub open spec fn byte_val(plan: Seq<BlitSpan>, src: Seq<u8>, x: u8, b: int, f: spec_fn(u8, u8, u32) -> u8) -> u8
    decreases plan.len(),
{
    if plan.len() == 0 {
        x
    } else {
        let v = byte_val(plan.drop_last(), src, x, b, f);
        if span_covers(plan.last(), b) {
            f(src[plan.last().src_start + (b - plan.last().tgt_start)], v, plan.last().alpha.bits)
        } else {
            v
        }
    }
}

/// Whether blending with opacity bits `bits` puts the source byte in place, whatever the
/// target byte was.
pub open spec fn overwrites(f: spec_fn(u8, u8, u32) -> u8, bits: u32) -> bool {
    forall|a: u8, d: u8| #[trigger] f(a, d, bits) == a
}

/// Each byte of the rendered frame is the byte's own history of blends.
proof fn lemma_render_byte(plan: Seq<BlitSpan>, src: Seq<u8>, tgt: Seq<u8>, f: spec_fn(u8, u8, u32) -> u8, b: int)
    requires
        0 <= b < tgt.len(),
    ensures
        render(plan, src, tgt, f).len() == tgt.len(),
        render(plan, src, tgt, f)[b] == byte_val(plan, src, tgt[b], b, f),
    decreases plan.len(),
{
    if plan.len() > 0 {
        lemma_render_byte(plan.drop_last(), src, tgt, f, b);
    }
}

/// Blending two plans one after the other is blending their concatenation.
proof fn lemma_byte_val_concat(p1: Seq<BlitSpan>, p2: Seq<BlitSpan>, src: Seq<u8>, x: u8, b: int, f: spec_fn(u8, u8, u32) -> u8)
    ensures
        byte_val(p1 + p2, src, x, b, f) == byte_val(p2, src, byte_val(p1, src, x, b, f), b, f),
    decreases p2.len(),
{
    if p2.len() == 0 {
        assert(p1 + p2 =~= p1);
    } else {
        lemma_byte_val_concat(p1, p2.drop_last(), src, x, b, f);
        assert((p1 + p2).drop_last() =~= p1 + p2.drop_last());
        assert((p1 + p2).last() == p2.last());
    }
}

/// A byte that no span writes keeps its value.
proof fn lemma_byte_val_untouched(p: Seq<BlitSpan>, src: Seq<u8>, x: u8, b: int, f: spec_fn(u8, u8, u32) -> u8)
    requires
        forall|k: int| 0 <= k < p.len() ==> !span_covers(#[trigger] p[k], b),
    ensures
        byte_val(p, src, x, b, f) == x,
    decreases p.len(),
{
    if p.len() > 0 {
        assert(!span_covers(p[p.len() - 1], b));
        lemma_byte_val_untouched(p.drop_last(), src, x, b, f);
    }
}

/// Once a span that overwrites writes a byte, the byte's earlier value no longer matters.
proof fn lemma_byte_val_overwritten(p: Seq<BlitSpan>, src: Seq<u8>, x: u8, y: u8, b: int, f: spec_fn(u8, u8, u32) -> u8)
    requires
        exists|k: int| 0 <= k < p.len() && span_covers(#[trigger] p[k], b),
        forall|k: int|
            0 <= k < p.len() && span_covers(#[trigger] p[k], b) ==> overwrites(f, p[k].alpha.bits),
    ensures
        byte_val(p, src, x, b, f) == byte_val(p, src, y, b, f),
    decreases p.len(),
{
    let l = p.last();
    if span_covers(l, b) {
        assert(span_covers(p[p.len() - 1], b));
        let a = src[l.src_start + (b - l.tgt_start)];
        assert(f(a, byte_val(p.drop_last(), src, x, b, f), l.alpha.bits) == a);
        assert(f(a, byte_val(p.drop_last(), src, y, b, f), l.alpha.bits) == a);
    } else {
        let k = choose|k: int| 0 <= k < p.len() && span_covers(#[trigger] p[k], b);
        assert(k < p.len() - 1);
        let q = p.drop_last();
        assert(q[k] == p[k]);
        assert forall|m: int| 0 <= m < q.len() && span_covers(#[trigger] q[m], b) implies overwrites(f, q[m].alpha.bits) by {
            assert(q[m] == p[m]);
        }
        lemma_byte_val_overwritten(q, src, x, y, b, f);
    }
}

/// With target rows of `3 * w` bytes, the rows of a rule that fits the target write exactly
/// the bytes of the pixels of its destination rectangle, all with the rule's opacity.
proof fn lemma_rule_covers(ctx: BlitContext, r: RuleRect, w: int, tgt_len: int, b: int)
    requires
        ctx.tgt_width == 3 * w,
        0 <= w,
        crate::rules::blit_fits(ctx.tgt_width as int, r.dest, r.src.dim, tgt_len),
        tgt_len <= usize::MAX,
        0 <= b,
    ensures
        (exists|k: int|
            0 <= k < crate::rules::rule_spans(ctx, r).len() && span_covers(
                #[trigger] crate::rules::rule_spans(ctx, r)[k],
                b,
            )) <==> crate::rules::rule_pixels(r, w).contains(b / 3),
        forall|k: int|
            0 <= k < crate::rules::rule_spans(ctx, r).len() ==> (#[trigger] crate::rules::rule_spans(
                ctx,
                r,
            )[k]).alpha == r.alpha,
{
    let sp = crate::rules::rule_spans(ctx, r);
    let y = r.dest.y as int;
    let x = r.dest.x as int;
    let width = r.src.dim.width as int;
    let px = b / 3;
    assert(3 * px <= b < 3 * px + 3);
    assert forall|k: int| 0 <= k < sp.len() implies (#[trigger] sp[k]).tgt_start == 3 * ((y + k) * w + x)
        && sp[k].len == 3 * width by {
        crate::rules::lemma_row_within(ctx.tgt_width as int, r.dest, r.src.dim, tgt_len, k);
        assert(3 * w * y + x * 3 + k * (3 * w) == 3 * ((y + k) * w + x)) by (nonlinear_arith);
    }
    if exists|k: int| 0 <= k < sp.len() && span_covers(#[trigger] sp[k], b) {
        let k = choose|k: int| 0 <= k < sp.len() && span_covers(#[trigger] sp[k], b);
        let p0 = (y + k) * w + x;
        assert(p0 <= px < p0 + width);
        let j = px - p0;
        assert(px == crate::rules::pix(r, w, k, j));
        assert(0 <= k < r.src.dim.height && 0 <= j < r.src.dim.width);
    }
    if crate::rules::rule_pixels(r, w).contains(px) {
        let (a, bb) = choose|a: int, bb: int|
            0 <= a < r.src.dim.height && 0 <= bb < r.src.dim.width && px == crate::rules::pix(r, w, a, bb);
        assert(sp[a].tgt_start == 3 * ((y + a) * w + x));
        assert(span_covers(sp[a], b));
    }
}

/// Blending the rows of one more rule appends them to the plan.
proof fn lemma_plan_push(ctx: BlitContext, s: Seq<RuleRect>, r: RuleRect)
    ensures
        crate::rules::plan_spec(ctx, s.push(r)) == crate::rules::plan_spec(ctx, s) + crate::rules::rule_spans(ctx, r),
{
    assert(s.push(r).drop_last() =~= s);
}

/// Byte `b`, whose pixel no opaque rule from position `m` on covers, has the same value after
/// the first `m` rules as after those of them that are kept when occluded rules are dropped.
proof fn lemma_prefix_agrees(
    ctx: BlitContext,
    t: Seq<RuleRect>,
    w: int,
    src: Seq<u8>,
    tgt_len: int,
    f: spec_fn(u8, u8, u32) -> u8,
    m: int,
    b: int,
)
    requires
        ctx.tgt_width == 3 * w,
        0 <= w,
        0 <= m <= t.len(),
        0 <= b < tgt_len,
        tgt_len <= usize::MAX,
        forall|k: int|
            0 <= k < t.len() ==> crate::rules::blit_fits(
                ctx.tgt_width as int,
                (#[trigger] t[k]).dest,
                t[k].src.dim,
                tgt_len,
            ),
        forall|k: int|
            0 <= k < t.len() && (#[trigger] t[k]).alpha.class == AlphaClass::Opaque ==> overwrites(
                f,
                t[k].alpha.bits,
            ),
        !crate::rules::cover_from(t, w, m).contains(b / 3),
    ensures
        byte_val(crate::rules::plan_spec(ctx, t.subrange(0, m)), src, 0, b, f) == byte_val(
            crate::rules::plan_spec(ctx, crate::rules::kept_prefix(t, w, m)),
            src,
            0,
            b,
            f,
        ),
    decreases m,
{
    if m == 0 {
        assert(t.subrange(0, 0) =~= Seq::<RuleRect>::empty());
    } else {
        let r = t[m - 1];
        let px = b / 3;
        let prev = t.subrange(0, m - 1);
        assert(t.subrange(0, m) =~= prev.push(r));
        lemma_plan_push(ctx, prev, r);
        let spans = crate::rules::rule_spans(ctx, r);
        let kp = crate::rules::kept_prefix(t, w, m - 1);
        let tp = crate::rules::plan_spec(ctx, prev);
        let kpp = crate::rules::plan_spec(ctx, kp);
        lemma_byte_val_concat(tp, spans, src, 0, b, f);
        lemma_rule_covers(ctx, r, w, tgt_len, b);
        assert(crate::rules::cover_from(t, w, m - 1) == crate::rules::step_cover(
            r,
            w,
            crate::rules::cover_from(t, w, m),
        ));
        if crate::rules::cover_from(t, w, m - 1).contains(px) {
            // the rule at m - 1 is opaque, covers the pixel, and is kept: it overwrites it
            assert(r.alpha.class == AlphaClass::Opaque);
            assert(crate::rules::rule_pixels(r, w).contains(px));
            assert(!crate::rules::occluded(t, w, m - 1));
            lemma_plan_push(ctx, kp, r);
            lemma_byte_val_concat(kpp, spans, src, 0, b, f);
            assert(overwrites(f, r.alpha.bits));
            assert forall|k: int| 0 <= k < spans.len() && span_covers(#[trigger] spans[k], b) implies overwrites(
                f,
                spans[k].alpha.bits,
            ) by {
                assert(spans[k].alpha == r.alpha);
            }
            lemma_byte_val_overwritten(
                spans,
                src,
                byte_val(tp, src, 0, b, f),
                byte_val(kpp, src, 0, b, f),
                b,
                f,
            );
        } else {
            lemma_prefix_agrees(ctx, t, w, src, tgt_len, f, m - 1, b);
            if crate::rules::occluded(t, w, m - 1) {
                assert(!crate::rules::rule_pixels(r, w).contains(px));
                lemma_byte_val_untouched(spans, src, byte_val(tp, src, 0, b, f), b, f);
            } else {
                lemma_plan_push(ctx, kp, r);
                lemma_byte_val_concat(kpp, spans, src, 0, b, f);
            }
        }
    }
}

/// Dropping the occluded opaque rules leaves the composited frame unchanged, for any blend
/// under which every opaque rule puts its source bytes in place whatever lay below.
pub proof fn lemma_occlusion_keeps_frame(
    ctx: BlitContext,
    t: Seq<RuleRect>,
    w: int,
    src: Seq<u8>,
    tgt_len: nat,
    f: spec_fn(u8, u8, u32) -> u8,
)
    requires
        ctx.tgt_width == 3 * w,
        0 <= w,
        tgt_len <= usize::MAX,
        crate::rules::rules_fit(ctx, t, src.len() as int, tgt_len as int),
        forall|k: int|
            0 <= k < t.len() && (#[trigger] t[k]).alpha.class == AlphaClass::Opaque ==> overwrites(
                f,
                t[k].alpha.bits,
            ),
    ensures
        render(crate::rules::plan_spec(ctx, t), src, crate::rules::zero_frame(tgt_len), f) == render(
            crate::rules::plan_spec(ctx, crate::rules::without_occluded(t, w)),
            src,
            crate::rules::zero_frame(tgt_len),
            f,
        ),
{
    let z = crate::rules::zero_frame(tgt_len);
    let a = render(crate::rules::plan_spec(ctx, t), src, z, f);
    let k = render(crate::rules::plan_spec(ctx, crate::rules::without_occluded(t, w)), src, z, f);
    assert(t.subrange(0, t.len() as int) =~= t);
    assert forall|q: int|
        0 <= q < t.len() implies crate::rules::blit_fits(
            ctx.tgt_width as int,
            (#[trigger] t[q]).dest,
            t[q].src.dim,
            tgt_len as int,
        ) by {}
    assert forall|b: int| 0 <= b < tgt_len implies a[b] == k[b] by {
        lemma_render_byte(crate::rules::plan_spec(ctx, t), src, z, f, b);
        lemma_render_byte(crate::rules::plan_spec(ctx, crate::rules::without_occluded(t, w)), src, z, f, b);
        assert(crate::rules::cover_from(t, w, t.len() as int) == Set::<int>::empty());
        lemma_prefix_agrees(ctx, t, w, src, tgt_len as int, f, t.len() as int, b);
    }
    lemma_render_len(crate::rules::plan_spec(ctx, t), src, z, f);
    lemma_render_len(crate::rules::plan_spec(ctx, crate::rules::without_occluded(t, w)), src, z, f);
    assert(a =~= k);
}

/// Rendering keeps the length of the target.
proof fn lemma_render_len(plan: Seq<BlitSpan>, src: Seq<u8>, tgt: Seq<u8>, f: spec_fn(u8, u8, u32) -> u8)
    ensures
        render(plan, src, tgt, f).len() == tgt.len(),
    decreases plan.len(),
{
    if plan.len() > 0 {
        lemma_render_len(plan.drop_last(), src, tgt, f);
    }
}

/// What compositing with a blend that computes `f` produces is the frame that blending the
/// plan with `f` renders.
pub proof fn lemma_composited_renders<F: Fn(u8, u8, u32) -> u8>(
    plan: Seq<BlitSpan>,
    src: Seq<u8>,
    before: Seq<u8>,
    after: Seq<u8>,
    blend: F,
    f: spec_fn(u8, u8, u32) -> u8,
)
    requires
        crate::rules::composited(plan, src, before, after, blend),
        forall|a: u8, b: u8, c: u32, r: u8| call_ensures(blend, (a, b, c), r) ==> r == f(a, b, c),
    ensures
        after == render(plan, src, before, f),
    decreases plan.len(),
{
    if plan.len() > 0 {
        let mid = choose|mid: Seq<u8>|
            crate::rules::composited(plan.drop_last(), src, before, mid, blend) && #[trigger] crate::rules::span_blended(
                mid,
                after,
                src,
                plan.last(),
                plan.last().len as int,
                blend,
            );
        lemma_composited_renders(plan.drop_last(), src, before, mid, blend, f);
        let l = plan.last();
        assert(after =~= blend_span(mid, src, l, f)) by {
            assert forall|p: int| 0 <= p < after.len() implies after[p] == blend_span(mid, src, l, f)[p] by {
                if l.tgt_start <= p < l.tgt_start + l.len {
                    assert(call_ensures(
                        blend,
                        (src[l.src_start + (p - l.tgt_start)], mid[p], l.alpha.bits),
                        after[p],
                    ));
                }
            }
        }
    }
}

} // verus!
