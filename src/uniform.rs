use vstd::prelude::*;

verus! {

/// A named shader parameter. Every component is fixed-point in units of
/// `1 / MICRO` (see `fit::MICRO`).
#[derive(Debug, Clone, Copy, PartialEq, Eq)]
pub enum UniformValue {
    Float(i64),
    Vector2(i64, i64),
    Vector3(i64, i64, i64),
    Vector4(i64, i64, i64, i64),
}

/// A question to a compiled program: does it declare the uniform `name`
/// (or, where `attribute` holds, the vertex attribute `name`)?
#[derive(Debug)]
pub struct Query {
    pub attribute: bool,
    pub name: String,
}

/// One binding made before a shader filter draws.
#[derive(Debug, Clone, Copy, PartialEq, Eq)]
pub enum Binding {
    /// `u_resolution`: the canvas size.
    Resolution,
    /// The filter's uniform at this position of its list.
    Uniform(usize),
    /// `a_uv`: the texture coordinates of the full-canvas quad.
    Uv,
    /// `a_position`: the corners of the full-canvas quad.
    Position,
    /// `u_texture`: the canvas so far.
    Texture,
}

/// Every binding that a shader filter with `n` uniforms may make, in the order
/// in which they are made.
pub open spec fn binding_order(n: nat) -> Seq<Binding> {
    Seq::new(
        n + 4,
        |i: int|
            if i == 0 {
                Binding::Resolution
            } else if i <= n {
                Binding::Uniform((i - 1) as usize)
            } else if i == n + 1 {
                Binding::Uv
            } else if i == n + 2 {
                Binding::Position
            } else {
                Binding::Texture
            },
    )
}

/// `q` asks for the name that `b` binds.
pub open spec fn asks_for(q: Query, b: Binding, uniforms: Seq<(String, UniformValue)>) -> bool {
    match b {
        Binding::Resolution => !q.attribute && q.name@ == "u_resolution"@,
        Binding::Uniform(i) => !q.attribute && q.name@ == uniforms[i as int].0@,
        Binding::Uv => q.attribute && q.name@ == "a_uv"@,
        Binding::Position => q.attribute && q.name@ == "a_position"@,
        Binding::Texture => !q.attribute && q.name@ == "u_texture"@,
    }
}

/// The items among the first `k` of `s` whose flag in `keep` is set, in order.
pub open spec fn kept<T>(s: Seq<T>, keep: Seq<bool>, k: nat) -> Seq<T>
    decreases k,
{
    if k == 0 {
        Seq::empty()
    } else {
        let before = kept(s, keep, (k - 1) as nat);
        if keep[k - 1] {
            before.push(s[k - 1])
        } else {
            before
        }
    }
}

/// The questions to put to a shader filter's program, one for each binding of
/// `binding_order`, position for position.
pub fn shader_queries(uniforms: &Vec<(String, UniformValue)>) -> (r: Vec<Query>)
    requires
        uniforms@.len() + 4 <= usize::MAX,
    ensures
        r@.len() == uniforms@.len() + 4,
        forall|i: int|
            0 <= i < r@.len() ==> asks_for(
                #[trigger] r@[i],
                binding_order(uniforms@.len())[i],
                uniforms@,
            ),
{
    let n = uniforms.len();
    let ghost order = binding_order(n as nat);
    let mut r: Vec<Query> = Vec::new();
    r.push(Query { attribute: false, name: "u_resolution".to_owned() });
    let mut i: usize = 0;
    while i < n
        invariant
            n == uniforms@.len(),
            n + 4 <= usize::MAX,
            order == binding_order(n as nat),
            0 <= i <= n,
            r@.len() == i + 1,
            forall|j: int| 0 <= j < r@.len() ==> asks_for(#[trigger] r@[j], order[j], uniforms@),
        decreases n - i,
    {
        r.push(Query { attribute: false, name: uniforms[i].0.clone() });
        i = i + 1;
    }
    r.push(Query { attribute: true, name: "a_uv".to_owned() });
    r.push(Query { attribute: true, name: "a_position".to_owned() });
    r.push(Query { attribute: false, name: "u_texture".to_owned() });
    r
}

/// The bindings to make for a shader filter with `n` uniforms, given the
/// program's answers to `shader_queries`: a name that the program does not
/// declare is left unbound.
pub fn shader_bindings(n: usize, declared: &Vec<bool>) -> (r: Vec<Binding>)
    requires
        n + 4 <= usize::MAX,
        declared@.len() == n + 4,
    ensures
        r@ == kept(binding_order(n as nat), declared@, (n + 4) as nat),
{
    let ghost order = binding_order(n as nat);
    let mut r: Vec<Binding> = Vec::new();
    let mut i: usize = 0;
    while i < n + 4
        invariant
            n + 4 <= usize::MAX,
            declared@.len() == n + 4,
            order == binding_order(n as nat),
            0 <= i <= n + 4,
            r@ == kept(order, declared@, i as nat),
        decreases n + 4 - i,
    {
        let b = if i == 0 {
            Binding::Resolution
        } else if i <= n {
            Binding::Uniform(i - 1)
        } else if i == n + 1 {
            Binding::Uv
        } else if i == n + 2 {
            Binding::Position
        } else {
            Binding::Texture
        };
        assert(b == order[i as int]);
        if declared[i] {
            r.push(b);
        }
        i = i + 1;
    }
    r
}

} // verus!
