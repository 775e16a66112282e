use vstd::prelude::*;

verus! {

/// A vertex of a clipped triangle, named by the input triangle's vertices
/// (0, 1, 2).
#[derive(Clone, Copy, Debug, PartialEq, Eq, Structural)]
pub enum ClipVertex {
    /// Input vertex `i` itself.
    Original(usize),
    /// The point where the edge from vertex `a` to vertex `b` crosses the
    /// plane: with `da`, `db` the plane's values at the two ends and
    /// `t = da / (da - db)`, every attribute is `(1 - t)·a + t·b`.
    Crossing(usize, usize),
}

/// One triangle that clipping emits, its vertices in drawing order.
#[derive(Clone, Copy, Debug, PartialEq, Eq, Structural)]
pub struct ClipTriangle {
    pub v0: ClipVertex,
    pub v1: ClipVertex,
    pub v2: ClipVertex,
}

pub open spec fn tri(v0: ClipVertex, v1: ClipVertex, v2: ClipVertex) -> ClipTriangle {
    ClipTriangle { v0, v1, v2 }
}

pub open spec fn orig(i: usize) -> ClipVertex {
    ClipVertex::Original(i)
}

pub open spec fn cross(a: usize, b: usize) -> ClipVertex {
    ClipVertex::Crossing(a, b)
}

/// The triangles that clipping one triangle against one plane emits, given
/// which of its vertices lie outside (strictly negative plane value). The
/// part inside is kept whole or split into a fan that keeps the winding.
pub open spec fn clip_plan(out0: bool, out1: bool, out2: bool) -> Seq<ClipTriangle> {
    if !out0 && !out1 && !out2 {
        seq![tri(orig(0), orig(1), orig(2))]
    } else if out0 && !out1 && !out2 {
        seq![tri(cross(0, 1), orig(1), orig(2)), tri(cross(0, 1), orig(2), cross(0, 2))]
    } else if !out0 && out1 && !out2 {
        seq![tri(orig(0), cross(1, 0), orig(2)), tri(orig(2), cross(1, 0), cross(1, 2))]
    } else if out0 && out1 && !out2 {
        seq![tri(cross(0, 2), cross(1, 2), orig(2))]
    } else if !out0 && !out1 && out2 {
        seq![tri(orig(0), orig(1), cross(2, 0)), tri(cross(2, 0), orig(1), cross(2, 1))]
    } else if out0 && !out1 && out2 {
        seq![tri(cross(0, 1), orig(1), cross(2, 1))]
    } else if !out0 && out1 && out2 {
        seq![tri(orig(0), cross(1, 0), cross(2, 0))]
    } else {
        seq![]
    }
}

fn make(v0: ClipVertex, v1: ClipVertex, v2: ClipVertex) -> (t: ClipTriangle)
    ensures
        t == tri(v0, v1, v2),
{
    ClipTriangle { v0, v1, v2 }
}

/// Clips one triangle against one plane. `outside[i]` says that vertex `i`
/// has a negative plane value; a value of zero counts as inside.
pub fn clip_triangle_against_plane(outside: [bool; 3]) -> (plan: Vec<ClipTriangle>)
    ensures
        plan@ == clip_plan(outside[0], outside[1], outside[2]),
{
    let o0 = outside[0];
    let o1 = outside[1];
    let o2 = outside[2];
    let mut plan: Vec<ClipTriangle> = Vec::new();
    let v0 = ClipVertex::Original(0);
    let v1 = ClipVertex::Original(1);
    let v2 = ClipVertex::Original(2);
    if !o0 && !o1 && !o2 {
        plan.push(make(v0, v1, v2));
    } else if o0 && !o1 && !o2 {
        let v01 = ClipVertex::Crossing(0, 1);
        let v02 = ClipVertex::Crossing(0, 2);
        plan.push(make(v01, v1, v2));
        plan.push(make(v01, v2, v02));
    } else if !o0 && o1 && !o2 {
        let v10 = ClipVertex::Crossing(1, 0);
        let v12 = ClipVertex::Crossing(1, 2);
        plan.push(make(v0, v10, v2));
        plan.push(make(v2, v10, v12));
    } else if o0 && o1 && !o2 {
        let v02 = ClipVertex::Crossing(0, 2);
        let v12 = ClipVertex::Crossing(1, 2);
        plan.push(make(v02, v12, v2));
    } else if !o0 && !o1 && o2 {
        let v20 = ClipVertex::Crossing(2, 0);
        let v21 = ClipVertex::Crossing(2, 1);
        plan.push(make(v0, v1, v20));
        plan.push(make(v20, v1, v21));
    } else if o0 && !o1 && o2 {
        let v01 = ClipVertex::Crossing(0, 1);
        let v21 = ClipVertex::Crossing(2, 1);
        plan.push(make(v01, v1, v21));
    } else if !o0 && o1 && o2 {
        let v10 = ClipVertex::Crossing(1, 0);
        let v20 = ClipVertex::Crossing(2, 0);
        plan.push(make(v0, v10, v20));
    }
    assert(plan@ =~= clip_plan(o0, o1, o2));
    plan
}

/// Whether `p` lies on the kept side of the plane: an input vertex that is
/// not outside, or a crossing from an outside vertex to an inside one
/// (where the plane's value is zero).
pub open spec fn kept(p: ClipVertex, out: Seq<bool>) -> bool {
    match p {
        ClipVertex::Original(i) => i < 3 && !out[i as int],
        ClipVertex::Crossing(a, b) => a < 3 && b < 3 && out[a as int] && !out[b as int],
    }
}

pub open spec fn mentions(t: ClipTriangle, i: usize) -> bool {
    t.v0 == orig(i) || t.v1 == orig(i) || t.v2 == orig(i)
}

/// Clipping keeps only what lies on the inside: every emitted vertex is an
/// inside vertex or a crossing out of an outside one; every inside vertex is
/// emitted; and a triangle gives at most two, none exactly when it lies
/// wholly outside. So clipping against two planes gives at most four.
pub proof fn lemma_clip_plan_keeps_inside(out0: bool, out1: bool, out2: bool)
    ensures
        ({
            let out = seq![out0, out1, out2];
            let plan = clip_plan(out0, out1, out2);
            &&& forall|k: int|
                0 <= k < plan.len() ==> kept(#[trigger] plan[k].v0, out) && kept(plan[k].v1, out)
                    && kept(plan[k].v2, out)
            &&& forall|i: usize|
                i < 3 && !out[i as int] ==> exists|k: int|
                    0 <= k < plan.len() && #[trigger] mentions(plan[k], i)
            &&& plan.len() <= 2
            &&& (plan.len() == 0 <==> (out0 && out1 && out2))
        }),
{
    let out = seq![out0, out1, out2];
    let plan = clip_plan(out0, out1, out2);
    assert forall|i: usize| i < 3 && !out[i as int] implies exists|k: int|
        0 <= k < plan.len() && #[trigger] mentions(plan[k], i) by {
        if i == 0 {
            assert(mentions(plan[0], i));
        } else if i == 1 {
            assert(mentions(plan[0], i));
        } else {
            if !out0 && out1 && !out2 {
                assert(mentions(plan[0], i));
            } else {
                assert(mentions(plan[0], i));
            }
        }
    }
}

/// Corner `j` (0, 1 or 2) of `t`.
pub open spec fn corner(t: ClipTriangle, j: int) -> ClipVertex {
    if j == 0 {
        t.v0
    } else if j == 1 {
        t.v1
    } else {
        t.v2
    }
}

/// Whether `v` is the vertex that `p` names for triangle `tri` and plane
/// `plane`, a crossing being made by `split`.
pub open spec fn made<V, S: Fn(usize, V, V) -> V>(
    split: S,
    plane: usize,
    tri: Seq<V>,
    p: ClipVertex,
    v: V,
) -> bool {
    match p {
        ClipVertex::Original(i) => i < 3 && v == tri[i as int],
        ClipVertex::Crossing(a, b) => a < 3 && b < 3 && split.ensures(
            (plane, tri[a as int], tri[b as int]),
            v,
        ),
    }
}

/// Whether `out` lists, three vertices each, the triangles that `plan`
/// makes of triangle `tri`.
pub open spec fn emits<V, S: Fn(usize, V, V) -> V>(
    split: S,
    plane: usize,
    tri: Seq<V>,
    plan: Seq<ClipTriangle>,
    out: Seq<V>,
) -> bool {
    &&& out.len() == 3 * plan.len()
    &&& forall|k: int, j: int|
        0 <= k < plan.len() && 0 <= j < 3 ==> made(split, plane, tri, corner(plan[k], j), #[trigger] out[3 * k + j])
}

/// Whether `out` is what clipping the triangles listed in `input` (three
/// vertices each) against plane `plane` gives: each triangle in turn, with
/// `outside` telling which of its vertices lie outside and `split` making the
/// crossings.
pub open spec fn clipped<V, F: Fn(usize, V) -> bool, S: Fn(usize, V, V) -> V>(
    outside: F,
    split: S,
    plane: usize,
    input: Seq<V>,
    out: Seq<V>,
) -> bool
    decreases input.len(),
{
    if input.len() < 3 {
        out.len() == 0
    } else {
        let last = input.len() - 3;
        let tri = input.subrange(last, input.len() as int);
        exists|o0: bool, o1: bool, o2: bool, n: int|
            #![trigger clip_plan(o0, o1, o2), out.subrange(0, n)]
            {
                &&& outside.ensures((plane, tri[0]), o0)
                &&& outside.ensures((plane, tri[1]), o1)
                &&& outside.ensures((plane, tri[2]), o2)
                &&& 0 <= n <= out.len()
                &&& clipped(outside, split, plane, input.subrange(0, last), out.subrange(0, n))
                &&& emits(split, plane, tri, clip_plan(o0, o1, o2), out.subrange(n, out.len() as int))
            }
    }
}

fn corner_of(t: ClipTriangle, j: usize) -> (p: ClipVertex)
    requires
        j < 3,
    ensures
        p == corner(t, j as int),
{
    if j == 0 {
        t.v0
    } else if j == 1 {
        t.v1
    } else {
        t.v2
    }
}

/// Whether the vertex indices that `p` names are those of a triangle.
pub open spec fn names_corners(p: ClipVertex) -> bool {
    match p {
        ClipVertex::Original(i) => i < 3,
        ClipVertex::Crossing(a, b) => a < 3 && b < 3,
    }
}

/// Appends to `out` the vertices of the triangles that `plan` makes of
/// triangle `tri`.
fn emit_plan<V: Copy, S: Fn(usize, V, V) -> V>(
    tri: [V; 3],
    plane: usize,
    split: &S,
    plan: &Vec<ClipTriangle>,
    out: &mut Vec<V>,
)
    requires
        forall|p: usize, a: V, b: V| split.requires((p, a, b)),
        forall|m: int, j: int| 0 <= m < plan@.len() && 0 <= j < 3 ==> names_corners(#[trigger] corner(plan@[m], j)),
    ensures
        final(out)@.len() == old(out)@.len() + 3 * plan@.len(),
        final(out)@.subrange(0, old(out)@.len() as int) == old(out)@,
        emits(*split, plane, tri@, plan@, final(out)@.subrange(old(out)@.len() as int, final(out)@.len() as int)),
{
    let ghost before = out@;
    let mut k: usize = 0;
    while k < plan.len()
        invariant
            k <= plan@.len(),
            forall|p: usize, a: V, b: V| split.requires((p, a, b)),
            forall|m: int, j: int| 0 <= m < plan@.len() && 0 <= j < 3 ==> names_corners(#[trigger] corner(plan@[m], j)),
            out@.len() == before.len() + 3 * k,
            out@.subrange(0, before.len() as int) == before,
            forall|kk: int, jj: int| 0 <= kk < k && 0 <= jj < 3 ==> made(*split, plane, tri@, corner(plan@[kk], jj), #[trigger] out@[before.len() + 3 * kk + jj]),
        decreases plan@.len() - k,
    {
        let t = plan[k];
        let mut j: usize = 0;
        while j < 3
            invariant
                j <= 3,
                k < plan@.len(),
                t == plan@[k as int],
                forall|p: usize, a: V, b: V| split.requires((p, a, b)),
                forall|m: int, jj: int| 0 <= m < plan@.len() && 0 <= jj < 3 ==> names_corners(#[trigger] corner(plan@[m], jj)),
                out@.len() == before.len() + 3 * k + j,
                out@.subrange(0, before.len() as int) == before,
                forall|kk: int, jj: int| 0 <= kk < k && 0 <= jj < 3 ==> made(*split, plane, tri@, corner(plan@[kk], jj), #[trigger] out@[before.len() + 3 * kk + jj]),
                forall|jj: int| 0 <= jj < j ==> made(*split, plane, tri@, corner(t, jj), #[trigger] out@[before.len() + 3 * k + jj]),
            decreases 3 - j,
        {
            let c = corner_of(t, j);
            assert(names_corners(corner(plan@[k as int], j as int)));
            let v = match c {
                ClipVertex::Original(idx) => tri[idx],
                ClipVertex::Crossing(a, b) => split(plane, tri[a], tri[b]),
            };
            let ghost prev = out@;
            out.push(v);
            proof {
                assert(out@.subrange(0, before.len() as int) =~= prev.subrange(0, before.len() as int));
            }
            j = j + 1;
        }
        k = k + 1;
    }
    proof {
        let seg = out@.subrange(before.len() as int, out@.len() as int);
        assert forall|kk: int, jj: int| 0 <= kk < plan@.len() && 0 <= jj < 3 implies made(*split, plane, tri@, corner(plan@[kk], jj), #[trigger] seg[3 * kk + jj]) by {
            assert(seg[3 * kk + jj] == out@[before.len() + 3 * kk + jj]);
        }
    }
}

/// Clips each triangle of `input` (three vertices each) against plane
/// `plane` and lists the triangles kept, three vertices each: at most two for
/// each triangle given.
pub fn clip_against_plane<V: Copy, F: Fn(usize, V) -> bool, S: Fn(usize, V, V) -> V>(
    input: &Vec<V>,
    plane: usize,
    outside: &F,
    split: &S,
) -> (out: Vec<V>)
    requires
        input@.len() % 3 == 0,
        forall|p: usize, v: V| outside.requires((p, v)),
        forall|p: usize, a: V, b: V| split.requires((p, a, b)),
    ensures
        out@.len() % 3 == 0,
        out@.len() <= 2 * input@.len(),
        clipped(*outside, *split, plane, input@, out@),
{
    let mut out: Vec<V> = Vec::new();
    let len = input.len();
    let count = len / 3;
    let mut i: usize = 0;
    assert(input@.subrange(0, 0) =~= Seq::<V>::empty());
    while i < count
        invariant
            i <= count,
            len == input@.len(),
            count * 3 == len,
            out@.len() % 3 == 0,
            out@.len() <= 6 * i,
            forall|p: usize, v: V| outside.requires((p, v)),
            forall|p: usize, a: V, b: V| split.requires((p, a, b)),
            clipped(*outside, *split, plane, input@.subrange(0, 3 * i as int), out@),
        decreases count - i,
    {
        let base = 3 * i;
        let tri = [input[base], input[base + 1], input[base + 2]];
        let o0 = outside(plane, tri[0]);
        let o1 = outside(plane, tri[1]);
        let o2 = outside(plane, tri[2]);
        let plan = clip_triangle_against_plane([o0, o1, o2]);
        proof {
            lemma_clip_plan_names_corners(o0, o1, o2);
        }
        let ghost before = out@;
        emit_plan(tri, plane, split, &plan, &mut out);
        proof {
            let n = before.len() as int;
            let prefix = input@.subrange(0, 3 * i + 3);
            assert(prefix.subrange(0, 3 * i as int) =~= input@.subrange(0, 3 * i as int));
            assert(prefix.subrange(3 * i as int, prefix.len() as int) =~= tri@);
            assert(out@.subrange(0, n) =~= before);
            assert(clipped(*outside, *split, plane, prefix.subrange(0, 3 * i as int), out@.subrange(0, n)));
            assert(emits(*split, plane, prefix.subrange(3 * i as int, prefix.len() as int), clip_plan(o0, o1, o2), out@.subrange(n, out@.len() as int)));
        }
        i = i + 1;
    }
    assert(input@.subrange(0, input@.len() as int) =~= input@);
    out
}

/// The near plane's number for `clip_vertices`: it is clipped first.
pub const NEAR_PLANE: usize = 0;

/// The far plane's number for `clip_vertices`: it is clipped second.
pub const FAR_PLANE: usize = 1;

/// Clips a triangle against the near plane, then the triangles kept against
/// the far plane, and lists the result three vertices each: at most four
/// triangles. `outside(plane, v)` says whether `v` lies outside `plane`, and
/// `split(plane, a, b)` makes the point where edge `a`→`b` crosses it.
pub fn clip_vertices<V: Copy, F: Fn(usize, V) -> bool, S: Fn(usize, V, V) -> V>(
    tri: [V; 3],
    outside: &F,
    split: &S,
) -> (out: Vec<V>)
    requires
        forall|p: usize, v: V| outside.requires((p, v)),
        forall|p: usize, a: V, b: V| split.requires((p, a, b)),
    ensures
        out@.len() % 3 == 0,
        out@.len() <= 12,
        exists|near: Seq<V>|
            clipped(*outside, *split, NEAR_PLANE, tri@, near) && #[trigger] clipped(
                *outside,
                *split,
                FAR_PLANE,
                near,
                out@,
            ),
{
    let mut input: Vec<V> = Vec::new();
    input.push(tri[0]);
    input.push(tri[1]);
    input.push(tri[2]);
    assert(input@ =~= tri@);
    let near = clip_against_plane(&input, NEAR_PLANE, outside, split);
    let far = clip_against_plane(&near, FAR_PLANE, outside, split);
    far
}

proof fn lemma_clip_plan_names_corners(o0: bool, o1: bool, o2: bool)
    ensures
        clip_plan(o0, o1, o2).len() <= 2,
        forall|m: int, j: int| 0 <= m < clip_plan(o0, o1, o2).len() && 0 <= j < 3 ==> names_corners(#[trigger] corner(clip_plan(o0, o1, o2)[m], j)),
{
}

} // verus!
