use vstd::prelude::*;

use crate::config::{load_shader_filter, uniforms_for, IoComposition, IoFilter, resources, resources_upto};
use crate::uniform::UniformValue;
use crate::error::MakuError;
use crate::fit::{placement, fit_to_matrix, Ratio, Transform};

verus! {

/// A resource that the caller loaded for one request of `resource_requests`.
#[derive(Debug, Clone, Copy, PartialEq, Eq)]
pub enum Resolved {
    /// A decoded image, by its handle, with its size in pixels.
    Image { texture: usize, width: u32, height: u32 },
    /// A compiled shader program, by its handle.
    Shader { program: usize },
}

/// One stage of a composition's filter chain.
#[derive(Debug)]
pub enum Filter {
    /// A nested composition, placed on the canvas by `matrix`.
    Composition { composition: Composition, matrix: Transform },
    /// A shared image, by its handle, placed on the canvas by `matrix`.
    Image { texture: usize, matrix: Transform },
    /// A shader program, by its handle, that replaces the canvas, and the
    /// uniforms handed to it.
    Shader { program: usize, uniforms: Vec<(String, UniformValue)> },
}

/// A node of the filter tree: a canvas of `width × height` pixels, three
/// render buffers of that size (by their slots), and an ordered filter chain.
#[derive(Debug)]
pub struct Composition {
    /// The canvas so far, read by the next filter.
    pub input: usize,
    /// Where a placed source is drawn before it is blended.
    pub intermediate: usize,
    /// What the last filter wrote.
    pub output: usize,
    pub width: u32,
    pub height: u32,
    pub filters: Vec<Filter>,
}

/// What a render pass reads.
#[derive(Debug, Clone, Copy, PartialEq, Eq)]
pub enum Source {
    Image(usize),
    Buffer(usize),
}

/// One draw call on the GPU. Each pass first clears what it writes to
/// transparent, then draws on a `width × height` viewport.
#[derive(Debug, Clone, Copy, PartialEq, Eq)]
pub enum Pass {
    /// Draw `source` through `matrix` into buffer `into`.
    Draw { source: Source, matrix: Transform, into: usize, width: u32, height: u32 },
    /// Draw buffer `top` over buffer `bottom` (straight alpha) into buffer `into`.
    Blend { bottom: usize, top: usize, into: usize, width: u32, height: u32 },
    /// Run `program` over the whole canvas into buffer `into`, with buffer
    /// `input` as its texture.
    Shader { program: usize, input: usize, into: usize, width: u32, height: u32 },
    /// Draw `buffer` unchanged onto the render target.
    Present { buffer: usize, width: u32, height: u32 },
    /// Clear buffer `into` to transparent.
    Clear { into: usize, width: u32, height: u32 },
}

/// The number of compositions nested (at any depth) in the first `n` filters of `c`.
pub open spec fn nested_upto(c: IoComposition, n: nat) -> nat
    decreases c, n,
{
    if n == 0 || n > c.filters@.len() {
        0
    } else {
        nested_upto(c, (n - 1) as nat) + match c.filters@[n - 1] {
            IoFilter::Composition(child) => 1 + nested_upto(child, child.filters@.len()),
            _ => 0,
        }
    }
}

/// The number of render buffers that `c` and its nested compositions own.
pub open spec fn buffer_count(c: IoComposition) -> nat {
    3 * (1 + nested_upto(c, c.filters@.len()))
}

/// The first `n` filters of `c` find what they need in `resolved`, from
/// position `pos` on: an image of at least one pixel for an image filter, a
/// program for a shader filter, and a canvas of at least one pixel for a nested
/// composition, whose own filters hold to the same.
pub open spec fn fits_upto(c: IoComposition, n: nat, resolved: Seq<Resolved>, pos: int) -> bool
    decreases c, n,
{
    if n == 0 || n > c.filters@.len() {
        true
    } else {
        let p = pos + resources_upto(c, (n - 1) as nat).len();
        fits_upto(c, (n - 1) as nat, resolved, pos) && match c.filters@[n - 1] {
            IoFilter::Composition(child) => child.width > 0 && child.height > 0 && fits_upto(
                child,
                child.filters@.len(),
                resolved,
                p,
            ),
            IoFilter::Image { .. } => 0 <= p < resolved.len() && match resolved[p] {
                Resolved::Image { width, height, .. } => width > 0 && height > 0,
                Resolved::Shader { .. } => false,
            },
            _ => 0 <= p < resolved.len() && resolved[p] is Shader,
        }
    }
}

/// `c` can be loaded from `resolved`: every canvas and every image has at least
/// one pixel, `resolved` answers `resource_requests(c)` one for one, and the
/// buffer slots can be numbered.
pub open spec fn loadable(c: IoComposition, resolved: Seq<Resolved>) -> bool {
    &&& c.width > 0
    &&& c.height > 0
    &&& fits_upto(c, c.filters@.len(), resolved, 0)
    &&& resources(c).len() == resolved.len()
    &&& buffer_count(c) <= usize::MAX
}

/// The filters `fs` are the first `n` filters of `c`, loaded from `resolved`
/// read from position `pos` on, with buffer slots numbered from `slot` on: each
/// image and nested composition is placed by its fit against the canvas of `c`.
pub open spec fn built_upto(
    fs: Seq<Filter>,
    c: IoComposition,
    resolved: Seq<Resolved>,
    pos: int,
    slot: int,
    n: nat,
) -> bool
    decreases c, n,
{
    if n == 0 || n > c.filters@.len() {
        true
    } else {
        let p = pos + resources_upto(c, (n - 1) as nat).len();
        let s = slot + 3 * nested_upto(c, (n - 1) as nat);
        built_upto(fs, c, resolved, pos, slot, (n - 1) as nat) && match c.filters@[n - 1] {
            IoFilter::Composition(child) => match fs[n - 1] {
                Filter::Composition { composition: m, matrix } => {
                    &&& matrix == placement(child.fit, child.width, child.height, c.width, c.height)
                    &&& m.width == child.width
                    &&& m.height == child.height
                    &&& m.filters@.len() == child.filters@.len()
                    &&& m.input == s + 3 * nested_upto(child, child.filters@.len())
                    &&& m.intermediate == m.input + 1
                    &&& m.output == m.input + 2
                    &&& built_upto(m.filters@, child, resolved, p, s, child.filters@.len())
                },
                _ => false,
            },
            IoFilter::Image { fit, .. } => match resolved[p] {
                Resolved::Image { texture, width, height } => fs[n - 1] == (Filter::Image {
                    texture,
                    matrix: placement(fit, width, height, c.width, c.height),
                }),
                Resolved::Shader { .. } => false,
            },
            _ => match resolved[p] {
                Resolved::Shader { program } => match fs[n - 1] {
                    Filter::Shader { program: q, uniforms } => q == program && uniforms_for(
                        uniforms@,
                        c.filters@[n - 1],
                    ),
                    _ => false,
                },
                Resolved::Image { .. } => false,
            },
        }
    }
}

/// `m` is `c` loaded from `resolved` read from position `pos` on, with buffer
/// slots numbered from `slot` on: the nested compositions take theirs first,
/// and `m` the three after them.
pub open spec fn built(m: Composition, c: IoComposition, resolved: Seq<Resolved>, pos: int, slot: int) -> bool {
    &&& m.width == c.width
    &&& m.height == c.height
    &&& m.filters@.len() == c.filters@.len()
    &&& m.input == slot + 3 * nested_upto(c, c.filters@.len())
    &&& m.intermediate == m.input + 1
    &&& m.output == m.input + 2
    &&& built_upto(m.filters@, c, resolved, pos, slot, c.filters@.len())
}

proof fn lemma_fits_prefix(c: IoComposition, k: nat, n: nat, resolved: Seq<Resolved>, pos: int)
    requires
        k <= n <= c.filters@.len(),
        fits_upto(c, n, resolved, pos),
    ensures
        fits_upto(c, k, resolved, pos),
    decreases n,
{
    if k < n {
        lemma_fits_prefix(c, k, (n - 1) as nat, resolved, pos);
    }
}

/// Once a prefix of the filters does not fit, the whole list does not.
proof fn lemma_misfit_prefix(c: IoComposition, k: nat, resolved: Seq<Resolved>, pos: int)
    requires
        k <= c.filters@.len(),
        !fits_upto(c, k, resolved, pos),
    ensures
        !fits_upto(c, c.filters@.len(), resolved, pos),
{
    if fits_upto(c, c.filters@.len(), resolved, pos) {
        lemma_fits_prefix(c, k, c.filters@.len(), resolved, pos);
    }
}

proof fn lemma_nested_prefix(c: IoComposition, k: nat, n: nat)
    requires
        k <= n <= c.filters@.len(),
    ensures
        nested_upto(c, k) <= nested_upto(c, n),
    decreases n,
{
    if k < n {
        lemma_nested_prefix(c, k, (n - 1) as nat);
    }
}

proof fn lemma_built_frame(
    fs: Seq<Filter>,
    gs: Seq<Filter>,
    c: IoComposition,
    resolved: Seq<Resolved>,
    pos: int,
    slot: int,
    n: nat,
)
    requires
        n <= fs.len(),
        n <= gs.len(),
        forall|k: int| 0 <= k < n ==> fs[k] == gs[k],
    ensures
        built_upto(fs, c, resolved, pos, slot, n) == built_upto(gs, c, resolved, pos, slot, n),
    decreases n,
{
    if n > 0 {
        lemma_built_frame(fs, gs, c, resolved, pos, slot, (n - 1) as nat);
    }
}

fn load_from(
    c: &IoComposition,
    resolved: &Vec<Resolved>,
    pos: &mut usize,
    slot: &mut usize,
) -> (r: Result<Composition, MakuError>)
    ensures
        match r {
            Ok(m) => {
                &&& c.width > 0
                &&& c.height > 0
                &&& fits_upto(*c, c.filters@.len(), resolved@, *old(pos) as int)
                &&& *final(pos) == *old(pos) + resources(*c).len()
                &&& *final(slot) == *old(slot) + buffer_count(*c)
                &&& built(m, *c, resolved@, *old(pos) as int, *old(slot) as int)
            },
            Err(e) => {
                &&& e is InvalidComposition
                &&& !(c.width > 0 && c.height > 0 && fits_upto(
                    *c,
                    c.filters@.len(),
                    resolved@,
                    *old(pos) as int,
                ) && *old(slot) + buffer_count(*c) <= usize::MAX)
            },
        },
    decreases c,
{
    let ghost start_pos = *pos as int;
    let ghost start_slot = *slot as int;
    if c.width == 0 || c.height == 0 {
        return Err(MakuError::InvalidComposition);
    }
    let mut filters: Vec<Filter> = Vec::new();
    let mut i: usize = 0;
    while i < c.filters.len()
        invariant
            0 <= i <= c.filters@.len(),
            c.width > 0,
            c.height > 0,
            start_pos == *old(pos),
            start_slot == *old(slot),
            filters@.len() == i,
            fits_upto(*c, i as nat, resolved@, start_pos),
            *pos == start_pos + resources_upto(*c, i as nat).len(),
            *slot == start_slot + 3 * nested_upto(*c, i as nat),
            built_upto(filters@, *c, resolved@, start_pos, start_slot, i as nat),
        decreases c.filters@.len() - i,
    {
        let ghost fs0 = filters@;
        proof {
            lemma_nested_prefix(*c, (i + 1) as nat, c.filters@.len());
        }
        match &c.filters[i] {
            IoFilter::Composition(child) => {
                let loaded = load_from(child, resolved, pos, slot);
                match loaded {
                    Ok(m) => {
                        let matrix = fit_to_matrix(
                            &child.fit,
                            child.width,
                            child.height,
                            c.width,
                            c.height,
                        );
                        filters.push(Filter::Composition { composition: m, matrix });
                        proof {
                            lemma_built_frame(fs0, filters@, *c, resolved@, start_pos, start_slot, i as nat);
                        }
                    },
                    Err(e) => {
                        proof {
                            if !fits_upto(*c, (i + 1) as nat, resolved@, start_pos) {
                                lemma_misfit_prefix(*c, (i + 1) as nat, resolved@, start_pos);
                            }
                        }
                        return Err(e);
                    },
                }
            },
            IoFilter::Image { fit, .. } => {
                let p = *pos;
                if p >= resolved.len() {
                    proof {
                        lemma_misfit_prefix(*c, (i + 1) as nat, resolved@, start_pos);
                    }
                    return Err(MakuError::InvalidComposition);
                }
                match resolved[p] {
                    Resolved::Image { texture, width, height } => {
                        if width == 0 || height == 0 {
                            proof {
                                lemma_misfit_prefix(*c, (i + 1) as nat, resolved@, start_pos);
                            }
                            return Err(MakuError::InvalidComposition);
                        }
                        let matrix = fit_to_matrix(fit, width, height, c.width, c.height);
                        filters.push(Filter::Image { texture, matrix });
                        proof {
                            lemma_built_frame(fs0, filters@, *c, resolved@, start_pos, start_slot, i as nat);
                        }
                        *pos = p + 1;
                    },
                    Resolved::Shader { .. } => {
                        proof {
                            lemma_misfit_prefix(*c, (i + 1) as nat, resolved@, start_pos);
                        }
                        return Err(MakuError::InvalidComposition);
                    },
                }
            },
            _ => {
                let p = *pos;
                if p >= resolved.len() {
                    proof {
                        lemma_misfit_prefix(*c, (i + 1) as nat, resolved@, start_pos);
                    }
                    return Err(MakuError::InvalidComposition);
                }
                match resolved[p] {
                    Resolved::Shader { program } => {
                        let request = load_shader_filter(&c.filters[i]);
                        filters.push(Filter::Shader { program, uniforms: request.uniforms });
                        proof {
                            lemma_built_frame(fs0, filters@, *c, resolved@, start_pos, start_slot, i as nat);
                        }
                        *pos = p + 1;
                    },
                    Resolved::Image { .. } => {
                        proof {
                            lemma_misfit_prefix(*c, (i + 1) as nat, resolved@, start_pos);
                        }
                        return Err(MakuError::InvalidComposition);
                    },
                }
            },
        }
        i = i + 1;
    }
    if *slot > usize::MAX - 3 {
        return Err(MakuError::InvalidComposition);
    }
    let input = *slot;
    *slot = input + 3;
    Ok(
        Composition {
            input,
            intermediate: input + 1,
            output: input + 2,
            width: c.width,
            height: c.height,
            filters,
        },
    )
}

/// The passes that start `m` from a blank canvas: its input and its output
/// are cleared to transparent.
pub open spec fn clears(m: Composition) -> Seq<Pass> {
    seq![
        Pass::Clear { into: m.input, width: m.width, height: m.height },
        Pass::Clear { into: m.output, width: m.width, height: m.height },
    ]
}

/// The passes that clear the canvas of `m`, then evaluate its first `n`
/// filters, in order. After each filter the output is copied back into the
/// input, so that the next filter reads everything before it.
pub open spec fn passes_upto(m: Composition, n: nat) -> Seq<Pass>
    decreases m, n,
{
    if n > m.filters@.len() {
        Seq::empty()
    } else if n == 0 {
        clears(m)
    } else {
        let w = m.width;
        let h = m.height;
        let blend = Pass::Blend { bottom: m.input, top: m.intermediate, into: m.output, width: w, height: h };
        let copy_back = Pass::Draw {
            source: Source::Buffer(m.output),
            matrix: Transform::scaling(Ratio { num: 1, den: 1 }, Ratio { num: 1, den: 1 }),
            into: m.input,
            width: w,
            height: h,
        };
        passes_upto(m, (n - 1) as nat) + match m.filters@[n - 1] {
            Filter::Image { texture, matrix } => seq![
                Pass::Draw { source: Source::Image(texture), matrix, into: m.intermediate, width: w, height: h },
                blend,
                copy_back,
            ],
            Filter::Shader { program, .. } => seq![
                Pass::Shader { program, input: m.input, into: m.output, width: w, height: h },
                copy_back,
            ],
            Filter::Composition { composition: child, matrix } => passes_upto(
                child,
                child.filters@.len(),
            ) + seq![
                Pass::Draw { source: Source::Buffer(child.output), matrix, into: m.intermediate, width: w, height: h },
                blend,
                copy_back,
            ],
        }
    }
}

/// The passes that clear the canvas of `m` and evaluate every filter of `m`,
/// nested compositions first.
pub open spec fn passes(m: Composition) -> Seq<Pass> {
    passes_upto(m, m.filters@.len())
}

/// The passes that render `m` onto a target: its filters, then its output.
pub open spec fn render_passes(m: Composition) -> Seq<Pass> {
    passes(m).push(Pass::Present { buffer: m.output, width: m.width, height: m.height })
}

/// Two compositions with the same buffers, the same size and the same first
/// `n` filters plan the same passes for those filters.
pub proof fn lemma_passes_frame(m1: Composition, m2: Composition, n: nat)
    requires
        m1.input == m2.input,
        m1.intermediate == m2.intermediate,
        m1.output == m2.output,
        m1.width == m2.width,
        m1.height == m2.height,
        n <= m1.filters@.len(),
        n <= m2.filters@.len(),
        forall|k: int| 0 <= k < n ==> m1.filters@[k] == m2.filters@[k],
    ensures
        passes_upto(m1, n) == passes_upto(m2, n),
    decreases n,
{
    if n > 0 {
        lemma_passes_frame(m1, m2, (n - 1) as nat);
    }
}

proof fn lemma_passes_prefix(m: Composition, k: nat, n: nat)
    requires
        k <= n <= m.filters@.len(),
    ensures
        passes_upto(m, k).len() <= passes_upto(m, n).len(),
        forall|j: int| 0 <= j < passes_upto(m, k).len() ==> #[trigger] passes_upto(m, n)[j]
            == passes_upto(m, k)[j],
    decreases n,
{
    if k < n {
        lemma_passes_prefix(m, k, (n - 1) as nat);
    }
}

/// Rendering a composition without filters clears its input and its output to
/// transparent and presents that blank output: nothing else is drawn.
pub proof fn lemma_empty_composition_presents_output(m: Composition)
    requires
        m.filters@.len() == 0,
    ensures
        render_passes(m) == seq![
            Pass::Clear { into: m.input, width: m.width, height: m.height },
            Pass::Clear { into: m.output, width: m.width, height: m.height },
            Pass::Present { buffer: m.output, width: m.width, height: m.height },
        ],
{
    assert(render_passes(m) =~= seq![
        Pass::Clear { into: m.input, width: m.width, height: m.height },
        Pass::Clear { into: m.output, width: m.width, height: m.height },
        Pass::Present { buffer: m.output, width: m.width, height: m.height },
    ]);
}

/// Filters apply one after the other in their declared order: exchanging two
/// neighbouring shader filters with different programs changes the passes.
pub proof fn lemma_swapped_shaders_differ(m1: Composition, m2: Composition, i: int)
    requires
        m1.input == m2.input,
        m1.intermediate == m2.intermediate,
        m1.output == m2.output,
        m1.width == m2.width,
        m1.height == m2.height,
        m1.filters@.len() == m2.filters@.len(),
        0 <= i,
        i + 1 < m1.filters@.len(),
        forall|k: int| 0 <= k < m1.filters@.len() && k != i && k != i + 1 ==> m1.filters@[k]
            == m2.filters@[k],
        m1.filters@[i] == m2.filters@[i + 1],
        m1.filters@[i + 1] == m2.filters@[i],
        m1.filters@[i] is Shader,
        m1.filters@[i + 1] is Shader,
        m1.filters@[i]->Shader_program != m1.filters@[i + 1]->Shader_program,
    ensures
        passes(m1) != passes(m2),
{
    let len = m1.filters@.len();
    lemma_passes_frame(m1, m2, i as nat);
    lemma_passes_prefix(m1, (i + 1) as nat, len);
    lemma_passes_prefix(m2, (i + 1) as nat, len);
    let at = passes_upto(m1, i as nat).len() as int;
    let p1 = m1.filters@[i]->Shader_program;
    let p2 = m2.filters@[i]->Shader_program;
    assert(passes_upto(m1, (i + 1) as nat)[at] == Pass::Shader {
        program: p1,
        input: m1.input,
        into: m1.output,
        width: m1.width,
        height: m1.height,
    });
    assert(passes_upto(m2, (i + 1) as nat)[at] == Pass::Shader {
        program: p2,
        input: m2.input,
        into: m2.output,
        width: m2.width,
        height: m2.height,
    });
    assert(p1 != p2);
    assert(passes(m1)[at] != passes(m2)[at]);
}

/// The buffer slots of the compositions nested in the first `n` filters of
/// `fs`, each nested composition's own three after those of its children.
pub open spec fn slots_upto(fs: Seq<Filter>, n: nat) -> Seq<int>
    decreases fs, n,
{
    if n == 0 || n > fs.len() {
        Seq::empty()
    } else {
        slots_upto(fs, (n - 1) as nat) + match fs[n - 1] {
            Filter::Composition { composition: m, .. } => slots_upto(m.filters@, m.filters@.len())
                + seq![m.input as int, m.intermediate as int, m.output as int],
            _ => Seq::empty(),
        }
    }
}

/// Every buffer slot of the tree under `m`, children first, `m`'s own last.
pub open spec fn buffer_slots(m: Composition) -> Seq<int> {
    slots_upto(m.filters@, m.filters@.len()) + seq![
        m.input as int,
        m.intermediate as int,
        m.output as int,
    ]
}

/// The `n` numbers from `lo` on.
pub open spec fn counting(lo: int, n: nat) -> Seq<int> {
    Seq::new(n, |i: int| lo + i)
}

/// The sizes of the buffers that `slots_upto(fs, n)` lists, position for position.
pub open spec fn sizes_upto(fs: Seq<Filter>, n: nat) -> Seq<(u32, u32)>
    decreases fs, n,
{
    if n == 0 || n > fs.len() {
        Seq::empty()
    } else {
        sizes_upto(fs, (n - 1) as nat) + match fs[n - 1] {
            Filter::Composition { composition: m, .. } => sizes_upto(m.filters@, m.filters@.len())
                + seq![(m.width, m.height), (m.width, m.height), (m.width, m.height)],
            _ => Seq::empty(),
        }
    }
}

/// The sizes of the buffers that `buffer_slots(m)` lists, position for position:
/// each buffer has the canvas size of the composition that owns it.
pub open spec fn buffer_sizes(m: Composition) -> Seq<(u32, u32)> {
    sizes_upto(m.filters@, m.filters@.len()) + seq![
        (m.width, m.height),
        (m.width, m.height),
        (m.width, m.height),
    ]
}

proof fn lemma_sizes_follow_slots(fs: Seq<Filter>, n: nat)
    ensures
        sizes_upto(fs, n).len() == slots_upto(fs, n).len(),
    decreases fs, n,
{
    if n > 0 && n <= fs.len() {
        lemma_sizes_follow_slots(fs, (n - 1) as nat);
        match fs[n - 1] {
            Filter::Composition { composition: m, .. } => {
                lemma_sizes_follow_slots(m.filters@, m.filters@.len());
            },
            _ => {},
        }
    }
}

proof fn lemma_built_slots(
    fs: Seq<Filter>,
    c: IoComposition,
    resolved: Seq<Resolved>,
    pos: int,
    slot: int,
    n: nat,
)
    requires
        n <= c.filters@.len(),
        n <= fs.len(),
        built_upto(fs, c, resolved, pos, slot, n),
    ensures
        slots_upto(fs, n) == counting(slot, 3 * nested_upto(c, n)),
    decreases c, n,
{
    if n > 0 {
        let k = (n - 1) as nat;
        lemma_built_slots(fs, c, resolved, pos, slot, k);
        let before = counting(slot, 3 * nested_upto(c, k));
        match c.filters@[k as int] {
            IoFilter::Composition(child) => {
                let m = fs[k as int]->composition;
                let p = pos + resources_upto(c, k).len();
                let s = slot + 3 * nested_upto(c, k);
                lemma_built_slots(m.filters@, child, resolved, p, s, child.filters@.len());
                let inner = counting(s, 3 * nested_upto(child, child.filters@.len()));
                let own = seq![m.input as int, m.intermediate as int, m.output as int];
                assert(slots_upto(fs, n) == before + (inner + own));
                assert(before + (inner + own) =~= counting(slot, 3 * nested_upto(c, n)));
            },
            _ => {
                assert(slots_upto(fs, n) =~= counting(slot, 3 * nested_upto(c, n)));
            },
        }
    }
}

/// A loaded tree shares no buffer: the slots of all its compositions, children
/// first, are `0, 1, 2, …` up to the number of buffers, none of them repeated,
/// so the size of the buffer in slot `k` is `buffer_sizes(m)[k]`.
pub proof fn lemma_loaded_buffers_are_distinct(m: Composition, c: IoComposition, resolved: Seq<Resolved>)
    requires
        built(m, c, resolved, 0, 0),
    ensures
        buffer_slots(m) == counting(0, buffer_count(c)),
        buffer_slots(m).no_duplicates(),
        buffer_sizes(m).len() == buffer_count(c),
{
    lemma_built_slots(m.filters@, c, resolved, 0, 0, c.filters@.len());
    lemma_sizes_follow_slots(m.filters@, m.filters@.len());
    assert(buffer_slots(m) =~= counting(0, buffer_count(c)));
}

/// Pass `p` writes to a buffer (every pass but the one onto the render target).
pub open spec fn writes_buffer(p: Pass) -> bool {
    !(p is Present)
}

/// The buffer slot that pass `p` writes to.
pub open spec fn written_slot(p: Pass) -> int {
    match p {
        Pass::Draw { into, .. } => into as int,
        Pass::Blend { into, .. } => into as int,
        Pass::Shader { into, .. } => into as int,
        Pass::Present { buffer, .. } => buffer as int,
        Pass::Clear { into, .. } => into as int,
    }
}

/// The size of the viewport that pass `p` draws on.
pub open spec fn viewport(p: Pass) -> (u32, u32) {
    match p {
        Pass::Draw { width, height, .. } => (width, height),
        Pass::Blend { width, height, .. } => (width, height),
        Pass::Shader { width, height, .. } => (width, height),
        Pass::Present { width, height, .. } => (width, height),
        Pass::Clear { width, height, .. } => (width, height),
    }
}

/// Some position of `slots` holds `slot`, and the same position of `sizes` holds `size`.
pub open spec fn listed(slots: Seq<int>, sizes: Seq<(u32, u32)>, slot: int, size: (u32, u32)) -> bool {
    exists|k: int| 0 <= k < slots.len() && k < sizes.len() && slots[k] == slot && sizes[k] == size
}

proof fn lemma_slots_prefix(fs: Seq<Filter>, k: nat, n: nat)
    requires
        k <= n <= fs.len(),
    ensures
        slots_upto(fs, k).len() <= slots_upto(fs, n).len(),
        sizes_upto(fs, k).len() <= sizes_upto(fs, n).len(),
        forall|j: int| 0 <= j < slots_upto(fs, k).len() ==> #[trigger] slots_upto(fs, n)[j]
            == slots_upto(fs, k)[j],
        forall|j: int| 0 <= j < sizes_upto(fs, k).len() ==> #[trigger] sizes_upto(fs, n)[j]
            == sizes_upto(fs, k)[j],
    decreases n,
{
    if k < n {
        lemma_slots_prefix(fs, k, (n - 1) as nat);
    }
}

proof fn lemma_passes_write_listed(m: Composition, n: nat)
    requires
        n <= m.filters@.len(),
    ensures
        forall|j: int|
            0 <= j < passes_upto(m, n).len() && #[trigger] writes_buffer(passes_upto(m, n)[j])
                ==> listed(
                buffer_slots(m),
                buffer_sizes(m),
                written_slot(passes_upto(m, n)[j]),
                viewport(passes_upto(m, n)[j]),
            ),
    decreases m, n,
{
    let fs = m.filters@;
    let len = fs.len();
    lemma_sizes_follow_slots(fs, len);
    let base = slots_upto(fs, len).len() as int;
    let own_size = (m.width, m.height);
    assert(buffer_slots(m)[base] == m.input as int);
    assert(buffer_slots(m)[base + 1] == m.intermediate as int);
    assert(buffer_slots(m)[base + 2] == m.output as int);
    assert(buffer_sizes(m)[base] == own_size);
    assert(buffer_sizes(m)[base + 1] == own_size);
    assert(buffer_sizes(m)[base + 2] == own_size);
    if n == 0 {
        return;
    }
    let k = (n - 1) as nat;
    let before = passes_upto(m, k);
    let all = passes_upto(m, n);
    lemma_passes_write_listed(m, k);
    lemma_sizes_follow_slots(fs, k);
    lemma_slots_prefix(fs, n, len);
    assert forall|j: int| 0 <= j < all.len() && #[trigger] writes_buffer(all[j]) implies listed(
        buffer_slots(m),
        buffer_sizes(m),
        written_slot(all[j]),
        viewport(all[j]),
    ) by {
        if j < before.len() {
            assert(all[j] == before[j]);
        } else {
            let slot = written_slot(all[j]);
            let size = viewport(all[j]);
            match fs[k as int] {
                Filter::Composition { composition: child, .. } => {
                    let inner = passes_upto(child, child.filters@.len());
                    if j < before.len() + inner.len() {
                        let i = j - before.len();
                        assert(all[j] == inner[i]);
                        lemma_passes_write_listed(child, child.filters@.len());
                        assert(writes_buffer(inner[i]));
                        let kc = choose|kc: int|
                            0 <= kc < buffer_slots(child).len() && kc < buffer_sizes(child).len()
                                && buffer_slots(child)[kc] == slot && buffer_sizes(child)[kc]
                                == size;
                        let at = slots_upto(fs, k).len() + kc;
                        assert(slots_upto(fs, n) == slots_upto(fs, k) + buffer_slots(child));
                        assert(sizes_upto(fs, n) == sizes_upto(fs, k) + buffer_sizes(child));
                        assert(slots_upto(fs, n)[at] == slot);
                        assert(sizes_upto(fs, n)[at] == size);
                        assert(buffer_slots(m)[at] == slot);
                        assert(buffer_sizes(m)[at] == size);
                    } else {
                        assert(size == own_size);
                        assert(slot == m.intermediate || slot == m.output || slot == m.input);
                    }
                },
                _ => {
                    assert(size == own_size);
                    assert(slot == m.intermediate || slot == m.output || slot == m.input);
                },
            }
        }
    };
}

/// In a loaded tree every pass draws on the whole of the buffer it writes:
/// its viewport has the size of that buffer.
pub proof fn lemma_passes_fill_their_buffers(m: Composition, c: IoComposition, resolved: Seq<Resolved>)
    requires
        built(m, c, resolved, 0, 0),
    ensures
        forall|j: int|
            0 <= j < passes(m).len() && #[trigger] writes_buffer(passes(m)[j]) ==> {
                &&& 0 <= written_slot(passes(m)[j]) < buffer_sizes(m).len()
                &&& buffer_sizes(m)[written_slot(passes(m)[j])] == viewport(passes(m)[j])
            },
{
    lemma_loaded_buffers_are_distinct(m, c, resolved);
    lemma_passes_write_listed(m, m.filters@.len());
    assert forall|j: int| 0 <= j < passes(m).len() && #[trigger] writes_buffer(passes(m)[j]) implies {
        &&& 0 <= written_slot(passes(m)[j]) < buffer_sizes(m).len()
        &&& buffer_sizes(m)[written_slot(passes(m)[j])] == viewport(passes(m)[j])
    } by {
        let slot = written_slot(passes(m)[j]);
        let size = viewport(passes(m)[j]);
        let k = choose|k: int|
            0 <= k < buffer_slots(m).len() && k < buffer_sizes(m).len() && buffer_slots(m)[k]
                == slot && buffer_sizes(m)[k] == size;
        assert(buffer_slots(m)[k] == k);
    };
}

/// Pass `p` reads the buffer in `slot`.
pub open spec fn reads_slot(p: Pass, slot: int) -> bool {
    match p {
        Pass::Draw { source, .. } => match source {
            Source::Buffer(b) => b as int == slot,
            Source::Image(_) => false,
        },
        Pass::Blend { bottom, top, .. } => bottom == slot || top == slot,
        Pass::Shader { input, .. } => input == slot,
        Pass::Present { buffer, .. } => buffer == slot,
        Pass::Clear { .. } => false,
    }
}

proof fn lemma_built_prefix(
    fs: Seq<Filter>,
    c: IoComposition,
    resolved: Seq<Resolved>,
    pos: int,
    slot: int,
    k: nat,
    n: nat,
)
    requires
        k <= n <= c.filters@.len(),
        built_upto(fs, c, resolved, pos, slot, n),
    ensures
        built_upto(fs, c, resolved, pos, slot, k),
    decreases n,
{
    if k < n {
        lemma_built_prefix(fs, c, resolved, pos, slot, k, (n - 1) as nat);
    }
}

proof fn lemma_no_self_read(
    m: Composition,
    c: IoComposition,
    resolved: Seq<Resolved>,
    pos: int,
    slot: int,
    n: nat,
)
    requires
        built(m, c, resolved, pos, slot),
        n <= c.filters@.len(),
    ensures
        forall|j: int|
            0 <= j < passes_upto(m, n).len() && #[trigger] writes_buffer(passes_upto(m, n)[j])
                ==> !reads_slot(passes_upto(m, n)[j], written_slot(passes_upto(m, n)[j])),
    decreases c, n,
{
    if n == 0 {
        return;
    }
    let k = (n - 1) as nat;
    let len = c.filters@.len();
    let before = passes_upto(m, k);
    let all = passes_upto(m, n);
    lemma_no_self_read(m, c, resolved, pos, slot, k);
    lemma_built_prefix(m.filters@, c, resolved, pos, slot, n, len);
    lemma_nested_prefix(c, n, len);
    assert forall|j: int| 0 <= j < all.len() && #[trigger] writes_buffer(all[j]) implies !reads_slot(
        all[j],
        written_slot(all[j]),
    ) by {
        if j < before.len() {
            assert(all[j] == before[j]);
        } else {
            match c.filters@[k as int] {
                IoFilter::Composition(child) => {
                    let cm = m.filters@[k as int]->composition;
                    let inner = passes_upto(cm, cm.filters@.len());
                    if j < before.len() + inner.len() {
                        let i = j - before.len();
                        assert(all[j] == inner[i]);
                        let p = pos + resources_upto(c, k).len();
                        let s = slot + 3 * nested_upto(c, k);
                        lemma_no_self_read(cm, child, resolved, p, s, child.filters@.len());
                        assert(writes_buffer(inner[i]));
                    }
                },
                _ => {},
            }
        }
    };
}

/// In a loaded tree no pass reads the buffer that it writes: every filter
/// reads the canvas so far from one buffer and writes its result to another.
pub proof fn lemma_passes_never_read_what_they_write(
    m: Composition,
    c: IoComposition,
    resolved: Seq<Resolved>,
)
    requires
        built(m, c, resolved, 0, 0),
    ensures
        forall|j: int|
            0 <= j < render_passes(m).len() && #[trigger] writes_buffer(render_passes(m)[j])
                ==> !reads_slot(render_passes(m)[j], written_slot(render_passes(m)[j])),
{
    lemma_no_self_read(m, c, resolved, 0, 0, c.filters@.len());
    assert forall|j: int|
        0 <= j < render_passes(m).len() && #[trigger] writes_buffer(render_passes(m)[j]) implies !reads_slot(
        render_passes(m)[j],
        written_slot(render_passes(m)[j]),
    ) by {
        assert(render_passes(m)[j] == passes(m)[j]);
    };
}

/// Some pass of `ps` before position `j` writes the buffer in `slot`.
pub open spec fn written_before(ps: Seq<Pass>, j: int, slot: int) -> bool {
    exists|i: int| 0 <= i < j && writes_buffer(ps[i]) && written_slot(ps[i]) == slot
}

/// Every buffer that a pass of `ps` reads was written by an earlier pass of `ps`.
pub open spec fn reads_only_written(ps: Seq<Pass>) -> bool {
    forall|j: int, slot: int|
        0 <= j < ps.len() && #[trigger] reads_slot(ps[j], slot) ==> written_before(ps, j, slot)
}

proof fn lemma_reads_only_written_upto(m: Composition, n: nat)
    requires
        n <= m.filters@.len(),
    ensures
        reads_only_written(passes_upto(m, n)),
        passes_upto(m, n).len() >= 2,
        passes_upto(m, n)[0] == clears(m)[0],
        passes_upto(m, n)[1] == clears(m)[1],
    decreases m, n,
{
    if n == 0 {
        return;
    }
    let k = (n - 1) as nat;
    let before = passes_upto(m, k);
    let all = passes_upto(m, n);
    let o = before.len() as int;
    lemma_reads_only_written_upto(m, k);
    assert(all[0] == before[0]);
    assert(all[1] == before[1]);
    assert forall|j: int, slot: int| 0 <= j < all.len() && #[trigger] reads_slot(all[j], slot) implies written_before(
        all,
        j,
        slot,
    ) by {
        if j < o {
            assert(all[j] == before[j]);
            let i = choose|i: int|
                0 <= i < j && writes_buffer(before[i]) && written_slot(before[i]) == slot;
            assert(all[i] == before[i]);
        } else {
            // The canvas so far is read from `input`, written by the first clear.
            let w = m.width;
            let h = m.height;
            let blend = Pass::Blend { bottom: m.input, top: m.intermediate, into: m.output, width: w, height: h };
            let copy_back = Pass::Draw {
                source: Source::Buffer(m.output),
                matrix: Transform::scaling(Ratio { num: 1, den: 1 }, Ratio { num: 1, den: 1 }),
                into: m.input,
                width: w,
                height: h,
            };
            if slot == m.input as int {
                assert(writes_buffer(all[0]) && written_slot(all[0]) == slot);
            } else {
                match m.filters@[k as int] {
                    Filter::Composition { composition: child, matrix } => {
                        let inner = passes_upto(child, child.filters@.len());
                        let l = inner.len() as int;
                        let step = inner + seq![
                            Pass::Draw { source: Source::Buffer(child.output), matrix, into: m.intermediate, width: w, height: h },
                            blend,
                            copy_back,
                        ];
                        assert(all == before + step);
                        lemma_reads_only_written_upto(child, child.filters@.len());
                        if j < o + l {
                            assert(all[j] == inner[j - o]);
                            let i = choose|i: int|
                                0 <= i < j - o && writes_buffer(inner[i]) && written_slot(inner[i])
                                    == slot;
                            assert(all[o + i] == inner[i]);
                        } else if j == o + l {
                            assert(all[j] == step[l]);
                            assert(slot == child.output as int);
                            assert(all[o + 1] == inner[1]);
                            assert(writes_buffer(all[o + 1]) && written_slot(all[o + 1]) == slot);
                        } else if j == o + l + 1 {
                            assert(all[j] == blend);
                            assert(all[j - 1] == step[l]);
                            assert(writes_buffer(all[j - 1]) && written_slot(all[j - 1]) == slot);
                        } else {
                            assert(all[j] == copy_back);
                            assert(all[j - 1] == blend);
                            assert(writes_buffer(all[j - 1]) && written_slot(all[j - 1]) == slot);
                        }
                    },
                    Filter::Image { texture, matrix } => {
                        let draw = Pass::Draw { source: Source::Image(texture), matrix, into: m.intermediate, width: w, height: h };
                        assert(all == before + seq![draw, blend, copy_back]);
                        if j == o + 1 {
                            assert(all[j] == blend);
                            assert(all[j - 1] == draw);
                        } else if j == o + 2 {
                            assert(all[j] == copy_back);
                            assert(all[j - 1] == blend);
                        } else {
                            assert(all[j] == draw);
                        }
                        assert(writes_buffer(all[j - 1]) && written_slot(all[j - 1]) == slot);
                    },
                    Filter::Shader { program, .. } => {
                        let shade = Pass::Shader { program, input: m.input, into: m.output, width: w, height: h };
                        assert(all == before + seq![shade, copy_back]);
                        if j == o + 1 {
                            assert(all[j] == copy_back);
                            assert(all[j - 1] == shade);
                        } else {
                            assert(all[j] == shade);
                        }
                        assert(writes_buffer(all[j - 1]) && written_slot(all[j - 1]) == slot);
                    },
                }
            }
        }
    };
}

/// A render starts from a blank canvas: every buffer that one of its passes
/// reads was written earlier in the same render (the first writes clear the
/// canvas), so nothing is carried over from an earlier render.
pub proof fn lemma_render_reads_only_written(m: Composition)
    ensures
        reads_only_written(render_passes(m)),
        render_passes(m)[0] == (Pass::Clear { into: m.input, width: m.width, height: m.height }),
        render_passes(m)[1] == (Pass::Clear { into: m.output, width: m.width, height: m.height }),
{
    let ps = passes(m);
    let all = render_passes(m);
    lemma_reads_only_written_upto(m, m.filters@.len());
    assert forall|j: int, slot: int| 0 <= j < all.len() && #[trigger] reads_slot(all[j], slot) implies written_before(
        all,
        j,
        slot,
    ) by {
        if j < ps.len() {
            assert(all[j] == ps[j]);
            let i = choose|i: int| 0 <= i < j && writes_buffer(ps[i]) && written_slot(ps[i]) == slot;
            assert(all[i] == ps[i]);
        } else {
            assert(all[1] == ps[1]);
            assert(writes_buffer(all[1]) && written_slot(all[1]) == slot);
        }
    };
}

impl Composition {
    /// The canvas has at least one pixel, and no two buffers of the tree share
    /// a slot: each composition owns its three.
    pub open spec fn wf(self) -> bool {
        &&& self.width > 0
        &&& self.height > 0
        &&& buffer_slots(self).no_duplicates()
    }

    /// Builds the filter tree of `c` from the resources that answer
    /// `resource_requests(c)`, in that order, and numbers the render buffers.
    pub fn load(c: &IoComposition, resolved: &Vec<Resolved>) -> (r: Result<Composition, MakuError>)
        ensures
            r is Ok <==> loadable(*c, resolved@),
            match r {
                Ok(m) => built(m, *c, resolved@, 0, 0) && m.wf(),
                Err(e) => e is InvalidComposition,
            },
    {
        let mut pos: usize = 0;
        let mut slot: usize = 0;
        let loaded = load_from(c, resolved, &mut pos, &mut slot);
        match loaded {
            Ok(m) => {
                if pos != resolved.len() {
                    Err(MakuError::InvalidComposition)
                } else {
                    proof {
                        lemma_loaded_buffers_are_distinct(m, *c, resolved@);
                    }
                    Ok(m)
                }
            },
            Err(e) => Err(e),
        }
    }

    fn apply_filters(&self, out: &mut Vec<Pass>)
        ensures
            final(out)@ == old(out)@ + passes(*self),
        decreases self,
    {
        let ghost start = out@;
        let w = self.width;
        let h = self.height;
        out.push(Pass::Clear { into: self.input, width: w, height: h });
        out.push(Pass::Clear { into: self.output, width: w, height: h });
        assert(out@ =~= start + passes_upto(*self, 0));
        let mut i: usize = 0;
        while i < self.filters.len()
            invariant
                0 <= i <= self.filters@.len(),
                w == self.width,
                h == self.height,
                out@ == start + passes_upto(*self, i as nat),
            decreases self.filters@.len() - i,
        {
            let ghost before = out@;
            let blend = Pass::Blend {
                bottom: self.input,
                top: self.intermediate,
                into: self.output,
                width: w,
                height: h,
            };
            match &self.filters[i] {
                Filter::Image { texture, matrix } => {
                    out.push(
                        Pass::Draw {
                            source: Source::Image(*texture),
                            matrix: *matrix,
                            into: self.intermediate,
                            width: w,
                            height: h,
                        },
                    );
                    out.push(blend);
                },
                Filter::Shader { program, .. } => {
                    out.push(
                        Pass::Shader {
                            program: *program,
                            input: self.input,
                            into: self.output,
                            width: w,
                            height: h,
                        },
                    );
                },
                Filter::Composition { composition, matrix } => {
                    composition.apply_filters(out);
                    out.push(
                        Pass::Draw {
                            source: Source::Buffer(composition.output),
                            matrix: *matrix,
                            into: self.intermediate,
                            width: w,
                            height: h,
                        },
                    );
                    out.push(blend);
                },
            }
            out.push(
                Pass::Draw {
                    source: Source::Buffer(self.output),
                    matrix: Transform::identity(),
                    into: self.input,
                    width: w,
                    height: h,
                },
            );
            proof {
                let step = out@.subrange(before.len() as int, out@.len() as int);
                assert(out@ == before + step);
                assert(passes_upto(*self, (i + 1) as nat) == passes_upto(*self, i as nat) + step);
            }
            i = i + 1;
        }
    }

    fn push_buffer_sizes(&self, out: &mut Vec<(u32, u32)>)
        ensures
            final(out)@ == old(out)@ + buffer_sizes(*self),
        decreases self,
    {
        let ghost start = out@;
        let mut i: usize = 0;
        while i < self.filters.len()
            invariant
                0 <= i <= self.filters@.len(),
                out@ == start + sizes_upto(self.filters@, i as nat),
            decreases self.filters@.len() - i,
        {
            let ghost before = out@;
            if let Filter::Composition { composition, .. } = &self.filters[i] {
                composition.push_buffer_sizes(out);
            }
            proof {
                let step = out@.subrange(before.len() as int, out@.len() as int);
                assert(out@ == before + step);
                assert(sizes_upto(self.filters@, (i + 1) as nat) == sizes_upto(self.filters@, i as nat)
                    + step);
            }
            i = i + 1;
        }
        let size = (self.width, self.height);
        out.push(size);
        out.push(size);
        out.push(size);
        assert(out@ =~= start + buffer_sizes(*self));
    }

    /// The size of each render buffer of the tree, by slot in a loaded tree:
    /// the canvas size of the composition that owns the buffer.
    pub fn buffer_sizes(&self) -> (r: Vec<(u32, u32)>)
        ensures
            r@ == buffer_sizes(*self),
    {
        let mut out: Vec<(u32, u32)> = Vec::new();
        self.push_buffer_sizes(&mut out);
        assert(out@ =~= buffer_sizes(*self));
        out
    }

    /// The passes that evaluate every filter, in declaration order; a nested
    /// composition is evaluated in full before it is blended.
    pub fn filter_passes(&self) -> (r: Vec<Pass>)
        ensures
            r@ == passes(*self),
    {
        let mut out: Vec<Pass> = Vec::new();
        self.apply_filters(&mut out);
        assert(out@ == Seq::<Pass>::empty() + passes(*self));
        out
    }

    /// The passes that render the composition onto a target: every filter,
    /// then the output drawn unchanged onto the target.
    pub fn render(&self) -> (r: Vec<Pass>)
        ensures
            r@ == render_passes(*self),
    {
        let mut out = self.filter_passes();
        out.push(Pass::Present { buffer: self.output, width: self.width, height: self.height });
        out
    }
}

} // verus!
