use vstd::prelude::*;
use crate::geometry::{Point, midpoint, midpoint_spec};

verus! {

/// An RGB colour.
#[derive(Clone, Copy, Debug, PartialEq, Eq, Structural)]
pub struct Color {
    pub r: u8,
    pub g: u8,
    pub b: u8,
}

/// Three corners: `top`, then `left`, then `right`.
#[derive(Clone, Copy, Debug, PartialEq, Eq, Structural)]
pub struct Triangle {
    pub top: Point,
    pub left: Point,
    pub right: Point,
}

/// One filled and stroked triangle.
#[derive(Clone, Copy, Debug, PartialEq, Eq, Structural)]
pub struct Painted {
    pub shape: Triangle,
    pub color: Color,
}

/// The corner triangle at the top of `t`.
pub open spec fn top_part(t: Triangle) -> Triangle {
    Triangle { top: t.top, left: midpoint_spec(t.top, t.left), right: midpoint_spec(t.top, t.right) }
}

/// The corner triangle at the left of `t`.
pub open spec fn left_part(t: Triangle) -> Triangle {
    Triangle { top: midpoint_spec(t.top, t.left), left: t.left, right: midpoint_spec(t.left, t.right) }
}

/// The corner triangle at the right of `t`.
pub open spec fn right_part(t: Triangle) -> Triangle {
    Triangle { top: midpoint_spec(t.top, t.right), left: midpoint_spec(t.left, t.right), right: t.right }
}

/// Number of triangles drawn at depth `d`.
pub open spec fn draws(d: nat) -> nat
    decreases d,
{
    if d > 1 {
        1 + 3 * draws((d - 1) as nat)
    } else {
        1
    }
}

/// Number of fresh colours drawn at depth `d`: one per subdividing level of
/// each branch.
pub open spec fn colors_needed(d: nat) -> nat
    decreases d,
{
    if d > 1 {
        1 + 3 * colors_needed((d - 1) as nat)
    } else {
        0
    }
}

/// The triangles drawn for `t` in `color` at depth `d`, in drawing order,
/// where fresh colours are taken from `colors` starting at `start`.
pub open spec fn fractal(t: Triangle, color: Color, d: nat, colors: Seq<Color>, start: int) -> Seq<Painted>
    decreases d,
{
    let here = seq![Painted { shape: t, color }];
    if d > 1 {
        let c = colors[start];
        let n = colors_needed((d - 1) as nat) as int;
        here + fractal(top_part(t), c, (d - 1) as nat, colors, start + 1)
            + fractal(left_part(t), c, (d - 1) as nat, colors, start + 1 + n)
            + fractal(right_part(t), c, (d - 1) as nat, colors, start + 1 + 2 * n)
    } else {
        here
    }
}

/// `3` to the power `d`.
pub open spec fn pow3(d: nat) -> nat
    decreases d,
{
    if d == 0 {
        1
    } else {
        3 * pow3((d - 1) as nat)
    }
}

/// Appends to `out` the triangles of the subdivision of `t` at depth
/// `depth`: `t` itself in `color`, then, where `depth > 1`, its three corner
/// triangles at `depth - 1`, all three in the one colour `colors[start]`.
/// Returns the index of the first colour not used.
pub fn render(
    out: &mut Vec<Painted>,
    t: Triangle,
    color: Color,
    depth: u32,
    colors: &Vec<Color>,
    start: usize,
) -> (next: usize)
    requires
        start + colors_needed(depth as nat) <= colors@.len(),
    ensures
        next == start + colors_needed(depth as nat),
        final(out)@ == old(out)@ + fractal(t, color, depth as nat, colors@, start as int),
    decreases depth,
{
    out.push(Painted { shape: t, color });
    if depth > 1 {
        let len = colors.len();
        assert(colors_needed(depth as nat) == 1 + 3 * colors_needed((depth - 1) as nat));
        assert(start < len);
        let c = colors[start];
        let ab = midpoint(t.top, t.left);
        let ac = midpoint(t.top, t.right);
        let bc = midpoint(t.left, t.right);
        let d = depth - 1;
        let ghost before = old(out)@;
        let ghost mid0 = out@;
        let n1 = render(out, Triangle { top: t.top, left: ab, right: ac }, c, d, colors, start + 1);
        let ghost mid1 = out@;
        let n2 = render(out, Triangle { top: ab, left: t.left, right: bc }, c, d, colors, n1);
        let ghost mid2 = out@;
        let n3 = render(out, Triangle { top: ac, left: bc, right: t.right }, c, d, colors, n2);
        proof {
            let n = colors_needed(d as nat) as int;
            assert(n1 == start + 1 + n);
            assert(n2 == start + 1 + 2 * n);
            let here = seq![Painted { shape: t, color }];
            assert(mid0 == before + here);
            assert(out@ =~= before + fractal(t, color, depth as nat, colors@, start as int));
        }
        n3
    } else {
        proof {
            assert(out@ =~= old(out)@ + fractal(t, color, depth as nat, colors@, start as int));
        }
        start
    }
}

/// All triangles of the subdivision of `t` at depth `depth`, the outer one
/// in `color`; `colors` supplies the fresh colour of each subdividing level,
/// in drawing order.
pub fn sierpinski(t: Triangle, color: Color, depth: u32, colors: &Vec<Color>) -> (r: Vec<Painted>)
    requires
        colors_needed(depth as nat) <= colors@.len(),
    ensures
        r@ == fractal(t, color, depth as nat, colors@, 0),
        r@.len() == draws(depth as nat),
{
    let mut out: Vec<Painted> = Vec::new();
    render(&mut out, t, color, depth, colors, 0);
    proof {
        assert(out@ =~= fractal(t, color, depth as nat, colors@, 0));
        lemma_fractal_len(t, color, depth as nat, colors@, 0);
    }
    out
}

/// How many fresh colours a subdivision at depth `depth` uses; `None` where
/// the count does not fit in a `usize`.
pub fn colors_for_depth(depth: u32) -> (r: Option<usize>)
    ensures
        match r {
            Some(n) => n == colors_needed(depth as nat),
            None => colors_needed(depth as nat) > usize::MAX,
        },
{
    let mut n: usize = 0;
    let mut d: u32 = 1;
    if depth <= 1 {
        return Some(0);
    }
    while d < depth
        invariant
            1 <= d <= depth,
            n == colors_needed(d as nat),
        decreases depth - d,
    {
        if n > (usize::MAX - 1) / 3 {
            proof {
                lemma_colors_needed_grows(d as nat, depth as nat);
            }
            return None;
        }
        n = 1 + 3 * n;
        d = d + 1;
    }
    Some(n)
}

proof fn lemma_colors_needed_grows(d: nat, e: nat)
    requires
        1 <= d <= e,
    ensures
        colors_needed(d) <= colors_needed(e),
        d < e ==> 1 + 3 * colors_needed(d) <= colors_needed(e),
    decreases e - d,
{
    if d < e {
        lemma_colors_needed_grows(d, (e - 1) as nat);
    }
}

/// The drawing at depth `d` holds `draws(d)` triangles, whatever colours are
/// supplied.
pub proof fn lemma_fractal_len(t: Triangle, color: Color, d: nat, colors: Seq<Color>, start: int)
    ensures
        fractal(t, color, d, colors, start).len() == draws(d),
    decreases d,
{
    if d > 1 {
        let c = colors[start];
        let n = colors_needed((d - 1) as nat) as int;
        lemma_fractal_len(top_part(t), c, (d - 1) as nat, colors, start + 1);
        lemma_fractal_len(left_part(t), c, (d - 1) as nat, colors, start + 1 + n);
        lemma_fractal_len(right_part(t), c, (d - 1) as nat, colors, start + 1 + 2 * n);
    }
}

/// For depth `d >= 1` the renderer draws `1 + 3 + ... + 3^(d-1)` triangles,
/// that is `(3^d - 1) / 2`: one at depth 1, four at depth 2, thirteen at
/// depth 3; `3^(d-1)` of them are drawn by calls that do not subdivide.
pub proof fn lemma_draw_count(d: nat)
    requires
        d >= 1,
    ensures
        2 * draws(d) + 1 == pow3(d),
        leaves(d) == pow3((d - 1) as nat),
    decreases d,
{
    if d > 1 {
        lemma_draw_count((d - 1) as nat);
        assert(pow3(d) == 3 * pow3((d - 1) as nat));
    } else {
        assert(pow3(0) == 1);
        assert(pow3(1) == 3 * pow3(0));
    }
}

/// Whatever colours are supplied, a drawing at depth `d >= 1` holds
/// `(3^d - 1) / 2` triangles, following the recursion `1 + 3 * draws(d - 1)`:
/// one at depth 1, four at depth 2, thirteen at depth 3.
pub proof fn lemma_triangle_count(t: Triangle, color: Color, d: nat, colors: Seq<Color>, start: int)
    requires
        d >= 1,
    ensures
        2 * fractal(t, color, d, colors, start).len() + 1 == pow3(d),
        fractal(t, color, d, colors, start).len() == draws(d),
        draws(1) == 1 && draws(2) == 4 && draws(3) == 13,
{
    lemma_fractal_len(t, color, d, colors, start);
    lemma_draw_count(d);
    assert(draws(1) == 1);
    assert(draws(2) == 4);
    assert(draws(3) == 13);
}

/// Number of triangles drawn at depth `d` by calls that do not subdivide.
pub open spec fn leaves(d: nat) -> nat
    decreases d,
{
    if d > 1 {
        3 * leaves((d - 1) as nat)
    } else {
        1
    }
}

} // verus!
