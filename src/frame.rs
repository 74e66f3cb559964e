use vstd::prelude::*;

use crate::composition::{
    lemma_empty_composition_presents_output, lemma_passes_frame, passes, passes_upto, render_passes, Composition,
    Filter, Pass, Source,
};
use crate::fit::{Ratio, Transform};
use crate::pixels::{blank, fully_transparent, lemma_transparent_over_keeps_canvas, over};

verus! {

/// What the GPU makes of the passes whose pixels it alone decides: the decoded
/// images by handle, drawing RGBA8 pixels through a placement onto a
/// `width × height` viewport, and running a shader program on a canvas.
pub struct Gpu {
    pub images: Map<usize, Seq<u8>>,
    pub draw: spec_fn(Seq<u8>, Transform, u32, u32) -> Seq<u8>,
    pub shade: spec_fn(usize, Seq<u8>, u32, u32) -> Seq<u8>,
}

/// The RGBA8 contents of the render buffers by slot, and of the render target.
pub struct Frame {
    pub buffers: Map<int, Seq<u8>>,
    pub target: Seq<u8>,
}

/// The identity placement, as the passes that copy a buffer use it.
pub open spec fn unit() -> Transform {
    Transform::scaling(Ratio { num: 1, den: 1 }, Ratio { num: 1, den: 1 })
}

/// The frame after pass `p`: a clear writes transparent pixels, a blend lays
/// `top` over `bottom` ("over"), a draw or a shader writes what the GPU makes,
/// and presenting shows the buffer on the target.
pub open spec fn step(g: Gpu, f: Frame, p: Pass) -> Frame {
    match p {
        Pass::Clear { into, width, height } => Frame {
            buffers: f.buffers.insert(into as int, blank((width * height * 4) as nat)),
            target: f.target,
        },
        Pass::Draw { source, matrix, into, width, height } => {
            let pixels = match source {
                Source::Image(i) => g.images[i],
                Source::Buffer(b) => f.buffers[b as int],
            };
            Frame {
                buffers: f.buffers.insert(into as int, (g.draw)(pixels, matrix, width, height)),
                target: f.target,
            }
        },
        Pass::Blend { bottom, top, into, .. } => Frame {
            buffers: f.buffers.insert(
                into as int,
                over(f.buffers[bottom as int], f.buffers[top as int]),
            ),
            target: f.target,
        },
        Pass::Shader { program, input, into, width, height } => Frame {
            buffers: f.buffers.insert(
                into as int,
                (g.shade)(program, f.buffers[input as int], width, height),
            ),
            target: f.target,
        },
        Pass::Present { buffer, .. } => Frame { buffers: f.buffers, target: f.buffers[buffer as int] },
    }
}

/// The frame after the passes `ps`, one after the other, from `f`.
pub open spec fn run(g: Gpu, f: Frame, ps: Seq<Pass>) -> Frame
    decreases ps.len(),
{
    if ps.len() == 0 {
        f
    } else {
        step(g, run(g, f, ps.drop_last()), ps.last())
    }
}

proof fn lemma_run_concat(g: Gpu, f: Frame, a: Seq<Pass>, b: Seq<Pass>)
    ensures
        run(g, f, a + b) == run(g, run(g, f, a), b),
    decreases b.len(),
{
    if b.len() == 0 {
        assert(a + b =~= a);
    } else {
        lemma_run_concat(g, f, a, b.drop_last());
        assert((a + b).drop_last() =~= a + b.drop_last());
        assert((a + b).last() == b.last());
    }
}

/// Rendering a composition without filters shows a fully transparent frame of
/// its size, whatever the GPU draws and whatever the buffers held before.
pub proof fn lemma_empty_render_is_transparent(m: Composition, g: Gpu, f: Frame)
    requires
        m.filters@.len() == 0,
    ensures
        run(g, f, render_passes(m)).target == blank((m.width * m.height * 4) as nat),
        run(g, f, render_passes(m)).target.len() == m.width * m.height * 4,
{
    lemma_empty_composition_presents_output(m);
    let ps = render_passes(m);
    let p0 = ps.drop_last().drop_last();
    let p1 = ps.drop_last();
    assert(p0.drop_last() =~= Seq::<Pass>::empty());
    assert(run(g, f, p0.drop_last()) == f);
    assert(p0.last() == ps[0]);
    assert(p1.last() == ps[1]);
    assert(p1.drop_last() == p0);
    let f1 = run(g, f, p0);
    assert(f1 == step(g, f, ps[0]));
    let f2 = run(g, f, p1);
    assert(f2 == step(g, f1, ps[1]));
    assert(f2.buffers[m.output as int] == blank((m.width * m.height * 4) as nat));
    assert(run(g, f, ps) == step(g, f2, ps[2]));
}

proof fn lemma_run_push(g: Gpu, f: Frame, ps: Seq<Pass>, p: Pass)
    ensures
        run(g, f, ps.push(p)) == step(g, run(g, f, ps), p),
{
    assert(ps.push(p).drop_last() =~= ps);
}

/// The pass that copies `m`'s output back into its input after each filter.
pub open spec fn copy_back(m: Composition) -> Pass {
    Pass::Draw {
        source: Source::Buffer(m.output),
        matrix: unit(),
        into: m.input,
        width: m.width,
        height: m.height,
    }
}

/// Shader `second` run on what the GPU copies of shader `first` run on `x`.
pub open spec fn shaded_twice(g: Gpu, first: usize, second: usize, x: Seq<u8>, w: u32, h: u32) -> Seq<u8> {
    (g.shade)(second, (g.draw)((g.shade)(first, x, w, h), unit(), w, h), w, h)
}

/// Filters run one after the other, each on the result of the one before:
/// when the last two filters are the shaders `a` then `b`, the frame shows `b`
/// run on (a copy of) `a` run on the canvas `x` that the filters before them
/// left; in the other order, `a` on `b`. So when the two programs do not
/// commute on `x`, the two orders show different frames.
pub proof fn lemma_shader_order_shows(m_ab: Composition, m_ba: Composition, g: Gpu, f: Frame, i: int)
    requires
        m_ab.input == m_ba.input,
        m_ab.intermediate == m_ba.intermediate,
        m_ab.output == m_ba.output,
        m_ab.width == m_ba.width,
        m_ab.height == m_ba.height,
        m_ab.input != m_ab.output,
        0 <= i,
        m_ab.filters@.len() == i + 2,
        m_ba.filters@.len() == i + 2,
        forall|k: int| 0 <= k < i ==> m_ab.filters@[k] == m_ba.filters@[k],
        m_ab.filters@[i] is Shader,
        m_ab.filters@[i + 1] is Shader,
        m_ba.filters@[i] is Shader,
        m_ba.filters@[i + 1] is Shader,
        m_ba.filters@[i]->Shader_program == m_ab.filters@[i + 1]->Shader_program,
        m_ba.filters@[i + 1]->Shader_program == m_ab.filters@[i]->Shader_program,
    ensures
        ({
            let a = m_ab.filters@[i]->Shader_program;
            let b = m_ab.filters@[i + 1]->Shader_program;
            let x = run(g, f, passes_upto(m_ab, i as nat)).buffers[m_ab.input as int];
            let (w, h) = (m_ab.width, m_ab.height);
            &&& run(g, f, render_passes(m_ab)).target == shaded_twice(g, a, b, x, w, h)
            &&& run(g, f, render_passes(m_ba)).target == shaded_twice(g, b, a, x, w, h)
            &&& shaded_twice(g, a, b, x, w, h) != shaded_twice(g, b, a, x, w, h) ==> run(
                g,
                f,
                render_passes(m_ab),
            ).target != run(g, f, render_passes(m_ba)).target
        }),
{
    lemma_passes_frame(m_ab, m_ba, i as nat);
    let a = m_ab.filters@[i]->Shader_program;
    let b = m_ab.filters@[i + 1]->Shader_program;
    let x = run(g, f, passes_upto(m_ab, i as nat)).buffers[m_ab.input as int];
    lemma_last_two_shaders(m_ab, g, f, i, a, b, x);
    lemma_last_two_shaders(m_ba, g, f, i, b, a, x);
}

proof fn lemma_last_two_shaders(m: Composition, g: Gpu, f: Frame, i: int, a: usize, b: usize, x: Seq<u8>)
    requires
        m.input != m.output,
        0 <= i,
        m.filters@.len() == i + 2,
        m.filters@[i] is Shader,
        m.filters@[i + 1] is Shader,
        m.filters@[i]->Shader_program == a,
        m.filters@[i + 1]->Shader_program == b,
        x == run(g, f, passes_upto(m, i as nat)).buffers[m.input as int],
    ensures
        run(g, f, render_passes(m)).target == shaded_twice(g, a, b, x, m.width, m.height),
{
    let (w, h) = (m.width, m.height);
    let pre = passes_upto(m, i as nat);
    let sa = Pass::Shader { program: a, input: m.input, into: m.output, width: w, height: h };
    let sb = Pass::Shader { program: b, input: m.input, into: m.output, width: w, height: h };
    let cb = copy_back(m);
    let present = Pass::Present { buffer: m.output, width: w, height: h };
    assert(passes_upto(m, (i + 1) as nat) == pre + seq![sa, cb]);
    assert(passes(m) == pre + seq![sa, cb] + seq![sb, cb]);
    let ps = pre.push(sa).push(cb).push(sb).push(cb);
    assert(passes(m) =~= ps);
    let s0 = run(g, f, pre);
    lemma_run_push(g, f, pre, sa);
    lemma_run_push(g, f, pre.push(sa), cb);
    lemma_run_push(g, f, pre.push(sa).push(cb), sb);
    lemma_run_push(g, f, pre.push(sa).push(cb).push(sb), cb);
    lemma_run_push(g, f, ps, present);
    let s1 = step(g, s0, sa);
    let s2 = step(g, s1, cb);
    let s3 = step(g, s2, sb);
    let s4 = step(g, s3, cb);
    assert(s1.buffers[m.output as int] == (g.shade)(a, x, w, h));
    assert(s2.buffers[m.input as int] == (g.draw)((g.shade)(a, x, w, h), unit(), w, h));
    assert(s3.buffers[m.output as int] == shaded_twice(g, a, b, x, w, h));
    assert(s4.buffers[m.output as int] == shaded_twice(g, a, b, x, w, h));
}

/// The canvas that `m`'s filters leave in its input buffer.
pub open spec fn canvas(g: Gpu, f: Frame, m: Composition) -> Seq<u8> {
    run(g, f, passes(m)).buffers[m.input as int]
}

proof fn lemma_canvas_is_shown(m: Composition, g: Gpu, f: Frame)
    requires
        m.input != m.output,
        forall|y: Seq<u8>| #[trigger] (g.draw)(y, unit(), m.width, m.height) == y,
    ensures
        canvas(g, f, m) == run(g, f, render_passes(m)).target,
{
    let n = m.filters@.len();
    lemma_run_push(g, f, passes(m), Pass::Present { buffer: m.output, width: m.width, height: m.height });
    if n == 0 {
        let ps = passes(m);
        assert(ps =~= seq![
            Pass::Clear { into: m.input, width: m.width, height: m.height },
            Pass::Clear { into: m.output, width: m.width, height: m.height },
        ]);
        assert(ps.drop_last().drop_last() =~= Seq::<Pass>::empty());
        lemma_run_push(g, f, ps.drop_last(), ps[1]);
        lemma_run_push(g, f, ps.drop_last().drop_last(), ps[0]);
        assert(ps.drop_last().push(ps[1]) =~= ps);
        assert(ps.drop_last().drop_last().push(ps[0]) =~= ps.drop_last());
    } else {
        let ps = passes(m);
        let k = (n - 1) as nat;
        assert(ps.last() == copy_back(m)) by {
            match m.filters@[k as int] {
                Filter::Composition { .. } => {},
                Filter::Image { .. } => {},
                Filter::Shader { .. } => {},
            }
        };
        assert(ps.drop_last().push(ps.last()) =~= ps);
        lemma_run_push(g, f, ps.drop_last(), ps.last());
    }
}

/// A fully transparent image layer leaves the frame as it was: when the GPU
/// draws the image of the last filter of `m2` as a fully transparent layer of
/// the canvas's size, and copies a buffer unchanged, `m2` shows what `m1`,
/// the same composition without that filter, shows. Without those conditions
/// the frame is the drawn layer laid "over" that canvas.
pub proof fn lemma_transparent_layer_shows(
    m1: Composition,
    m2: Composition,
    g: Gpu,
    f: Frame,
    texture: usize,
    matrix: Transform,
)
    requires
        m1.input == m2.input,
        m1.intermediate == m2.intermediate,
        m1.output == m2.output,
        m1.width == m2.width,
        m1.height == m2.height,
        m1.input != m1.output,
        m1.intermediate != m1.input,
        m1.intermediate != m1.output,
        m2.filters@.len() == m1.filters@.len() + 1,
        forall|k: int| 0 <= k < m1.filters@.len() ==> m1.filters@[k] == m2.filters@[k],
        m2.filters@[m1.filters@.len() as int] == (Filter::Image { texture, matrix }),
    ensures
        ({
            let layer = (g.draw)(g.images[texture], matrix, m1.width, m1.height);
            let x = canvas(g, f, m1);
            &&& run(g, f, render_passes(m2)).target == over(x, layer)
            &&& fully_transparent(layer) && layer.len() == x.len() && x.len() % 4 == 0
                && (forall|y: Seq<u8>| #[trigger] (g.draw)(y, unit(), m1.width, m1.height) == y)
                ==> run(g, f, render_passes(m2)).target == run(g, f, render_passes(m1)).target
        }),
{
    let n = m1.filters@.len();
    let (w, h) = (m1.width, m1.height);
    let layer = (g.draw)(g.images[texture], matrix, w, h);
    let x = canvas(g, f, m1);
    lemma_passes_frame(m1, m2, n);
    let pre = passes(m1);
    let d = Pass::Draw { source: Source::Image(texture), matrix, into: m1.intermediate, width: w, height: h };
    let bl = Pass::Blend { bottom: m1.input, top: m1.intermediate, into: m1.output, width: w, height: h };
    let cb = copy_back(m2);
    let present = Pass::Present { buffer: m1.output, width: w, height: h };
    assert(passes(m2) =~= pre.push(d).push(bl).push(cb));
    lemma_run_push(g, f, pre, d);
    lemma_run_push(g, f, pre.push(d), bl);
    lemma_run_push(g, f, pre.push(d).push(bl), cb);
    lemma_run_push(g, f, passes(m2), present);
    let s1 = step(g, run(g, f, pre), d);
    let s2 = step(g, s1, bl);
    let s3 = step(g, s2, cb);
    assert(s1.buffers[m1.intermediate as int] == layer);
    assert(s1.buffers[m1.input as int] == x);
    assert(s2.buffers[m1.output as int] == over(x, layer));
    assert(s3.buffers[m1.output as int] == over(x, layer));
    if fully_transparent(layer) && layer.len() == x.len() && x.len() % 4 == 0 && (forall|y: Seq<u8>|
        #[trigger] (g.draw)(y, unit(), w, h) == y) {
        lemma_transparent_over_keeps_canvas(x, layer);
        lemma_canvas_is_shown(m1, g, f);
    }
}

} // verus!
