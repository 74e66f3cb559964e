use vstd::prelude::*;

use crate::fit::IoImageFit;
use crate::uniform::UniformValue;

verus! {

/// One filter of a composition, as a project file declares it. Numbers are
/// fixed-point in units of `1 / MICRO` (see `fit::MICRO`).
#[derive(Debug)]
pub enum IoFilter {
    Composition(IoComposition),
    Image { path: String, fit: IoImageFit },
    Shader { frag: String, vert: String },
    BlackWhite,
    GaussianBlur { radius: i64 },
    DropShadow { radius: i64, offset: (i64, i64), color: (i64, i64, i64, i64) },
}

/// A composition as a project file declares it: its filters in the order in
/// which they apply, its canvas size, and how it is placed in its parent.
#[derive(Debug)]
pub struct IoComposition {
    pub filters: Vec<IoFilter>,
    pub width: u32,
    pub height: u32,
    pub fit: IoImageFit,
}

/// A shader program that ships with the library.
#[derive(Debug, Clone, Copy, PartialEq, Eq)]
pub enum Preset {
    BlackWhite,
    GaussianBlur,
    DropShadow,
}

/// Where the source text of a shader filter's program comes from.
#[derive(Debug)]
pub enum ShaderSource {
    /// Two files, named relative to the project file.
    Files { vert: String, frag: String },
    Preset(Preset),
}

/// What a shader filter needs before it can run: a program built from
/// `source`, and the uniforms to hand it.
#[derive(Debug)]
pub struct ShaderRequest {
    pub source: ShaderSource,
    pub uniforms: Vec<(String, UniformValue)>,
}

/// A resource that loading a composition needs, in the order in which the
/// composition's filters name them.
#[derive(Debug)]
pub enum Request {
    /// A decoded image, from a file named relative to the project file.
    Image { path: String },
    /// A compiled shader program.
    Shader(ShaderRequest),
}

/// The filter draws with a shader program.
pub open spec fn is_shader_filter(f: IoFilter) -> bool {
    match f {
        IoFilter::Composition(_) => false,
        IoFilter::Image { .. } => false,
        _ => true,
    }
}

/// Position `i` of `u` holds the uniform `name` with the value `v`.
pub open spec fn uniform_at(u: Seq<(String, UniformValue)>, i: int, name: Seq<char>, v: UniformValue) -> bool {
    0 <= i < u.len() && u[i].0@ == name && u[i].1 == v
}

/// `u` is the uniform list that the shader filter `f` hands its program.
pub open spec fn uniforms_for(u: Seq<(String, UniformValue)>, f: IoFilter) -> bool {
    match f {
        IoFilter::GaussianBlur { radius } => u.len() == 1 && uniform_at(
            u,
            0,
            "u_radius"@,
            UniformValue::Float(radius),
        ),
        IoFilter::DropShadow { radius, offset, color } => {
            &&& u.len() == 3
            &&& uniform_at(u, 0, "u_radius"@, UniformValue::Float(radius))
            &&& uniform_at(u, 1, "u_offset"@, UniformValue::Vector2(offset.0, offset.1))
            &&& uniform_at(
                u,
                2,
                "u_color"@,
                UniformValue::Vector4(color.0, color.1, color.2, color.3),
            )
        },
        _ => u.len() == 0,
    }
}

/// `r` is what the shader filter `f` asks for.
pub open spec fn shader_request_for(r: ShaderRequest, f: IoFilter) -> bool {
    &&& uniforms_for(r.uniforms@, f)
    &&& match f {
        IoFilter::Shader { frag, vert } => match r.source {
            ShaderSource::Files { vert: v, frag: g } => v@ == vert@ && g@ == frag@,
            ShaderSource::Preset(_) => false,
        },
        IoFilter::BlackWhite => r.source == ShaderSource::Preset(Preset::BlackWhite),
        IoFilter::GaussianBlur { .. } => r.source == ShaderSource::Preset(Preset::GaussianBlur),
        IoFilter::DropShadow { .. } => r.source == ShaderSource::Preset(Preset::DropShadow),
        _ => false,
    }
}

/// `r` is what the image or shader filter `f` asks for.
pub open spec fn request_for(r: Request, f: IoFilter) -> bool {
    match f {
        IoFilter::Composition(_) => false,
        IoFilter::Image { path, .. } => match r {
            Request::Image { path: p } => p@ == path@,
            Request::Shader(_) => false,
        },
        _ => match r {
            Request::Image { .. } => false,
            Request::Shader(s) => shader_request_for(s, f),
        },
    }
}

/// The image and shader filters among the first `n` filters of `c`, nested
/// compositions included, in the order in which they are declared (a nested
/// composition's own ones stand where it stands).
pub open spec fn resources_upto(c: IoComposition, n: nat) -> Seq<IoFilter>
    decreases c, n,
{
    if n == 0 || n > c.filters@.len() {
        Seq::empty()
    } else {
        let before = resources_upto(c, (n - 1) as nat);
        match c.filters@[n - 1] {
            IoFilter::Composition(child) => before + resources_upto(
                child,
                child.filters@.len(),
            ),
            f => before.push(f),
        }
    }
}

/// The image and shader filters of `c` and of the compositions nested in it.
pub open spec fn resources(c: IoComposition) -> Seq<IoFilter> {
    resources_upto(c, c.filters@.len())
}

/// Builds the request of a shader filter: the program's source, and the
/// uniforms that a preset takes from the filter's parameters.
pub fn load_shader_filter(item: &IoFilter) -> (r: ShaderRequest)
    requires
        is_shader_filter(*item),
    ensures
        shader_request_for(r, *item),
{
    match item {
        IoFilter::Shader { frag, vert } => ShaderRequest {
            source: ShaderSource::Files { vert: vert.clone(), frag: frag.clone() },
            uniforms: Vec::new(),
        },
        IoFilter::BlackWhite => ShaderRequest {
            source: ShaderSource::Preset(Preset::BlackWhite),
            uniforms: Vec::new(),
        },
        IoFilter::GaussianBlur { radius } => {
            let mut uniforms: Vec<(String, UniformValue)> = Vec::new();
            uniforms.push(("u_radius".to_owned(), UniformValue::Float(*radius)));
            ShaderRequest { source: ShaderSource::Preset(Preset::GaussianBlur), uniforms }
        },
        IoFilter::DropShadow { radius, offset, color } => {
            let mut uniforms: Vec<(String, UniformValue)> = Vec::new();
            uniforms.push(("u_radius".to_owned(), UniformValue::Float(*radius)));
            uniforms.push(("u_offset".to_owned(), UniformValue::Vector2(offset.0, offset.1)));
            uniforms.push(
                ("u_color".to_owned(), UniformValue::Vector4(color.0, color.1, color.2, color.3)),
            );
            ShaderRequest { source: ShaderSource::Preset(Preset::DropShadow), uniforms }
        },
        IoFilter::Composition(_) => {
            assert(false);
            ShaderRequest { source: ShaderSource::Preset(Preset::BlackWhite), uniforms: Vec::new() }
        },
        IoFilter::Image { .. } => {
            assert(false);
            ShaderRequest { source: ShaderSource::Preset(Preset::BlackWhite), uniforms: Vec::new() }
        },
    }
}

fn push_requests(c: &IoComposition, out: &mut Vec<Request>)
    ensures
        final(out)@.len() == old(out)@.len() + resources(*c).len(),
        forall|j: int| 0 <= j < old(out)@.len() ==> #[trigger] final(out)@[j] == old(out)@[j],
        forall|k: int|
            0 <= k < resources(*c).len() ==> request_for(
                #[trigger] final(out)@[old(out)@.len() + k],
                resources(*c)[k],
            ),
    decreases c,
{
    let ghost start = out@.len();
    let ghost first = out@;
    let mut i: usize = 0;
    while i < c.filters.len()
        invariant
            0 <= i <= c.filters@.len(),
            start == first.len(),
            out@.len() == start + resources_upto(*c, i as nat).len(),
            forall|j: int| 0 <= j < start ==> #[trigger] out@[j] == first[j],
            forall|k: int|
                0 <= k < resources_upto(*c, i as nat).len() ==> request_for(
                    #[trigger] out@[start + k],
                    resources_upto(*c, i as nat)[k],
                ),
        decreases c.filters@.len() - i,
    {
        let ghost before = out@;
        let ghost done = resources_upto(*c, i as nat);
        let f = &c.filters[i];
        match f {
            IoFilter::Composition(child) => {
                push_requests(child, out);
                assert(resources_upto(*c, (i + 1) as nat) == done + resources(*child));
                assert forall|k: int|
                    0 <= k < resources_upto(*c, (i + 1) as nat).len() implies request_for(
                    #[trigger] out@[start + k],
                    resources_upto(*c, (i + 1) as nat)[k],
                ) by {
                    if k < done.len() {
                        assert(out@[start + k] == before[start + k]);
                    } else {
                        let m = k - done.len();
                        assert(out@[before.len() + m] == out@[start + k]);
                    }
                };
            },
            IoFilter::Image { path, .. } => {
                out.push(Request::Image { path: path.clone() });
                assert(resources_upto(*c, (i + 1) as nat) == done.push(*f));
                assert forall|k: int|
                    0 <= k < resources_upto(*c, (i + 1) as nat).len() implies request_for(
                    #[trigger] out@[start + k],
                    resources_upto(*c, (i + 1) as nat)[k],
                ) by {
                    if k < done.len() {
                        assert(out@[start + k] == before[start + k]);
                    }
                };
            },
            _ => {
                out.push(Request::Shader(load_shader_filter(f)));
                assert(resources_upto(*c, (i + 1) as nat) == done.push(*f));
                assert forall|k: int|
                    0 <= k < resources_upto(*c, (i + 1) as nat).len() implies request_for(
                    #[trigger] out@[start + k],
                    resources_upto(*c, (i + 1) as nat)[k],
                ) by {
                    if k < done.len() {
                        assert(out@[start + k] == before[start + k]);
                    }
                };
            },
        }
        i = i + 1;
    }
}

/// The resources that loading `c` needs, one for each image or shader filter of
/// `c` and of the compositions nested in it, in declaration order.
pub fn resource_requests(c: &IoComposition) -> (r: Vec<Request>)
    ensures
        r@.len() == resources(*c).len(),
        forall|k: int| 0 <= k < r@.len() ==> request_for(#[trigger] r@[k], resources(*c)[k]),
{
    let mut out: Vec<Request> = Vec::new();
    push_requests(c, &mut out);
    proof {
        assert forall|k: int| 0 <= k < out@.len() implies request_for(
            #[trigger] out@[k],
            resources(*c)[k],
        ) by {
            assert(out@[0 + k] == out@[k]);
        };
    }
    out
}

} // verus!
