//! The bucket fill: an iterative, stack-based flood fill over the raw RGBA
//! bytes of a raster surface.
//!
//! Neighbours are taken on the linear pixel index (index plus or minus one for
//! left and right, plus or minus the width for up and down) with a single
//! range check and no row check, so a fill can continue across a row boundary:
//! the left neighbour of the first pixel of a row is the last pixel of the row
//! above.  The contracts below describe the filled region over exactly this
//! adjacency.

use crate::buffer::lemma_row_major_bound;
use crate::buffer::pix;
use crate::buffer::RasterBuffer;
use crate::buffer::RectError;
use crate::color::Color;
use vstd::prelude::*;
use vstd::set_lib::lemma_len_subset;
use vstd::set_lib::set_int_range;
use vstd::set_lib::lemma_int_range;

verus! {

/// Pixels `p` and `q` of a buffer of `area` pixels and row length `w` are
/// neighbours for the fill: adjacent linear indices, or one row length apart.
pub open spec fn lin_adj(w: int, area: int, p: int, q: int) -> bool {
    &&& 0 <= p < area
    &&& 0 <= q < area
    &&& (q == p + 1 || p == q + 1 || q == p + w || p == q + w)
}

/// Pixel `p` can be reached from `seed` in at most `n` fill steps: each step
/// moves to a neighbour whose color in `data` equals the seed's color.
pub open spec fn reach_n(data: Seq<u8>, w: int, area: int, seed: int, p: int, n: nat) -> bool
    decreases n,
{
    if p == seed {
        true
    } else if n == 0 {
        false
    } else {
        exists|q: int|
            reach_n(data, w, area, seed, q, (n - 1) as nat) && lin_adj(w, area, q, p) && pix(
                data,
                p,
            ) == pix(data, seed)
    }
}

/// Pixel `p` belongs to the region the fill paints: it is connected to `seed`
/// through pixels whose color in `data` equals the seed's color.
pub open spec fn reaches(data: Seq<u8>, w: int, area: int, seed: int, p: int) -> bool {
    exists|n: nat| reach_n(data, w, area, seed, p, n)
}

/// `result` is `orig` with the seed's region painted in `repl`: every pixel
/// the fill reaches carries `repl`, every other pixel is untouched.
pub open spec fn flood_filled(
    orig: Seq<u8>,
    w: int,
    area: int,
    seed: int,
    repl: (u8, u8, u8, u8),
    result: Seq<u8>,
) -> bool {
    &&& result.len() == orig.len()
    &&& forall|p: int|
        0 <= p < area ==> pix(result, p) == (if reaches(orig, w, area, seed, p) {
            repl
        } else {
            pix(orig, p)
        })
}

/// A reached pixel carries the seed's color.
proof fn lemma_reach_color(data: Seq<u8>, w: int, area: int, seed: int, p: int, n: nat)
    requires
        reach_n(data, w, area, seed, p, n),
    ensures
        p == seed || pix(data, p) == pix(data, seed),
{
}

/// Extending a reached pixel by one matching neighbour reaches that neighbour.
proof fn lemma_reach_step(data: Seq<u8>, w: int, area: int, seed: int, q: int, p: int)
    requires
        reaches(data, w, area, seed, q),
        lin_adj(w, area, q, p),
        pix(data, p) == pix(data, seed),
    ensures
        reaches(data, w, area, seed, p),
{
    let n = choose|n: nat| reach_n(data, w, area, seed, q, n);
    assert(reach_n(data, w, area, seed, p, n + 1));
}

/// A set that holds the seed and is closed under matching neighbours holds
/// every reached pixel.
proof fn lemma_reach_in_closed(
    data: Seq<u8>,
    w: int,
    area: int,
    seed: int,
    region: Set<int>,
    p: int,
    n: nat,
)
    requires
        region.contains(seed),
        forall|a: int, b: int|
            region.contains(a) && #[trigger] lin_adj(w, area, a, b) && pix(data, b) == pix(
                data,
                seed,
            ) ==> region.contains(b),
        reach_n(data, w, area, seed, p, n),
    ensures
        region.contains(p),
    decreases n,
{
    if p != seed {
        let q = choose|q: int|
            reach_n(data, w, area, seed, q, (n - 1) as nat) && lin_adj(w, area, q, p) && pix(
                data,
                p,
            ) == pix(data, seed);
        lemma_reach_in_closed(data, w, area, seed, region, q, (n - 1) as nat);
    }
}

/// Pixels `p` and `q` are 4-connected neighbours in the proper sense: left and
/// right stay within one row, up and down move one full row.
pub open spec fn four_adj(w: int, h: int, p: int, q: int) -> bool {
    &&& 0 <= p < w * h
    &&& 0 <= q < w * h
    &&& ((q == p + 1 && q % w != 0) || (p == q + 1 && p % w != 0) || q == p + w || p == q + w)
}

/// Pixel `p` can be reached from `seed` in at most `n` steps through
/// 4-connected pixels whose color in `data` equals the seed's color.
pub open spec fn reach4_n(data: Seq<u8>, w: int, h: int, seed: int, p: int, n: nat) -> bool
    decreases n,
{
    if p == seed {
        true
    } else if n == 0 {
        false
    } else {
        exists|q: int|
            reach4_n(data, w, h, seed, q, (n - 1) as nat) && four_adj(w, h, q, p) && pix(data, p)
                == pix(data, seed)
    }
}

/// Pixel `p` lies in the 4-connected component of `seed` among pixels whose
/// color in `data` equals the seed's color.
pub open spec fn reaches4(data: Seq<u8>, w: int, h: int, seed: int, p: int) -> bool {
    exists|n: nat| reach4_n(data, w, h, seed, p, n)
}

/// No two pixels of the seed's color in `data` meet across a row boundary:
/// a pixel at the start of a row and the pixel at the end of the row above
/// never both carry the seed's color.
pub open spec fn no_wrap_contact(data: Seq<u8>, w: int, h: int, seed: int) -> bool {
    forall|p: int|
        0 < p < w * h && p % w == 0 ==> !(#[trigger] pix(data, p) == pix(data, seed) && pix(
            data,
            p - 1,
        ) == pix(data, seed))
}

/// A 4-connected step is in particular a linear-index step.
proof fn lemma_reach4_to_reach(data: Seq<u8>, w: int, h: int, seed: int, p: int, n: nat)
    requires
        reach4_n(data, w, h, seed, p, n),
    ensures
        reach_n(data, w, w * h, seed, p, n),
    decreases n,
{
    if p != seed {
        let q = choose|q: int|
            reach4_n(data, w, h, seed, q, (n - 1) as nat) && four_adj(w, h, q, p) && pix(data, p)
                == pix(data, seed);
        lemma_reach4_to_reach(data, w, h, seed, q, (n - 1) as nat);
        assert(lin_adj(w, w * h, q, p));
    }
}

/// Where no pixels of the seed's color meet across a row boundary, a
/// linear-index step between pixels of the seed's color is a 4-connected step.
proof fn lemma_reach_to_reach4(data: Seq<u8>, w: int, h: int, seed: int, p: int, n: nat)
    requires
        w >= 1,
        0 <= seed < w * h,
        no_wrap_contact(data, w, h, seed),
        reach_n(data, w, w * h, seed, p, n),
    ensures
        reach4_n(data, w, h, seed, p, n),
    decreases n,
{
    if p != seed {
        let area = w * h;
        let q = choose|q: int|
            reach_n(data, w, area, seed, q, (n - 1) as nat) && lin_adj(w, area, q, p) && pix(
                data,
                p,
            ) == pix(data, seed);
        lemma_reach_to_reach4(data, w, h, seed, q, (n - 1) as nat);
        lemma_reach_color(data, w, area, seed, q, (n - 1) as nat);
        assert(pix(data, q) == pix(data, seed));
        if q == p + 1 {
            assert(q % w != 0);
        } else if p == q + 1 {
            assert(p % w != 0);
        }
        assert(four_adj(w, h, q, p));
        assert(reach4_n(data, w, h, seed, p, n));
    }
}

/// Filling a seed whose color already equals the replacement color leaves the
/// buffer byte for byte unchanged.
pub proof fn lemma_fill_same_color_noop(
    orig: Seq<u8>,
    w: int,
    area: int,
    seed: int,
    repl: (u8, u8, u8, u8),
    result: Seq<u8>,
)
    requires
        flood_filled(orig, w, area, seed, repl, result),
        0 <= seed < area,
        orig.len() == 4 * area,
        pix(orig, seed) == repl,
    ensures
        result == orig,
{
    assert forall|i: int| 0 <= i < orig.len() implies result[i] == orig[i] by {
        let p = i / 4;
        let r = i % 4;
        assert(i == 4 * p + r);
        assert(0 <= p < area);
        assert(pix(result, p) == pix(orig, p)) by {
            if reaches(orig, w, area, seed, p) {
                let m = choose|m: nat| reach_n(orig, w, area, seed, p, m);
                lemma_reach_color(orig, w, area, seed, p, m);
            }
        }
    }
    assert(result =~= orig);
}

/// The fill always covers the seed's 4-connected component: every pixel
/// 4-connected to the seed through pixels of the seed's color ends up
/// painted, whatever else the row-crossing adjacency may add.
pub proof fn lemma_fill_covers_component(
    orig: Seq<u8>,
    w: int,
    h: int,
    seed: int,
    repl: (u8, u8, u8, u8),
    result: Seq<u8>,
)
    requires
        flood_filled(orig, w, w * h, seed, repl, result),
    ensures
        forall|p: int|
            0 <= p < w * h && reaches4(orig, w, h, seed, p) ==> pix(result, p) == repl,
{
    let area = w * h;
    assert forall|p: int| 0 <= p < area && reaches4(orig, w, h, seed, p) implies pix(result, p)
        == repl by {
        let m = choose|m: nat| reach4_n(orig, w, h, seed, p, m);
        lemma_reach4_to_reach(orig, w, h, seed, p, m);
        assert(reaches(orig, w, area, seed, p));
    }
}

/// Filling an enclosed region: where no two pixels of the seed's color meet
/// across a row boundary, the fill paints exactly the 4-connected component
/// of the seed among pixels of the seed's color, and no other pixel changes.
pub proof fn lemma_fill_exact_component(
    orig: Seq<u8>,
    w: int,
    h: int,
    seed: int,
    repl: (u8, u8, u8, u8),
    result: Seq<u8>,
)
    requires
        flood_filled(orig, w, w * h, seed, repl, result),
        w >= 1,
        0 <= seed < w * h,
        no_wrap_contact(orig, w, h, seed),
    ensures
        forall|p: int|
            0 <= p < w * h ==> pix(result, p) == (if reaches4(orig, w, h, seed, p) {
                repl
            } else {
                pix(orig, p)
            }),
{
    let area = w * h;
    assert forall|p: int| 0 <= p < area implies reaches(orig, w, area, seed, p) == reaches4(
        orig,
        w,
        h,
        seed,
        p,
    ) by {
        if reaches(orig, w, area, seed, p) {
            let m = choose|m: nat| reach_n(orig, w, area, seed, p, m);
            lemma_reach_to_reach4(orig, w, h, seed, p, m);
            assert(reach4_n(orig, w, h, seed, p, m));
            assert(reaches4(orig, w, h, seed, p));
        }
        if reaches4(orig, w, h, seed, p) {
            let m = choose|m: nat| reach4_n(orig, w, h, seed, p, m);
            lemma_reach4_to_reach(orig, w, h, seed, p, m);
            assert(reach_n(orig, w, area, seed, p, m));
            assert(reaches(orig, w, area, seed, p));
        }
    }
}

/// Some index of `stack` holds the value `q`.
pub(crate) open spec fn stack_has(stack: Seq<usize>, q: int) -> bool {
    exists|k: int| 0 <= k < stack.len() && stack[k] == q
}

/// Flood-fill `buffer` from the seed pixel `(x, y)` with `color`.
///
/// The seed's color is read first; every pixel connected to the seed through
/// pixels of that color (under the linear adjacency described in this module)
/// is overwritten with `color`, and no other pixel changes.  A seed outside
/// the buffer is refused and leaves the buffer untouched.
pub fn fill(buffer: &mut RasterBuffer, x: usize, y: usize, color: &Color) -> (r: Result<
    (),
    RectError,
>)
    requires
        old(buffer).wf(),
    ensures
        final(buffer).wf(),
        final(buffer).width == old(buffer).width,
        final(buffer).height == old(buffer).height,
        r is Ok <==> x < old(buffer).width && y < old(buffer).height,
        r is Err ==> r == Err::<(), RectError>(RectError::OutOfBounds) && *final(buffer) == *old(
            buffer,
        ),
        r is Ok ==> flood_filled(
            old(buffer).data@,
            old(buffer).width as int,
            old(buffer).width * old(buffer).height,
            y * old(buffer).width + x,
            color.rgba(),
            final(buffer).data@,
        ),
{
    let w: usize = buffer.width as usize;
    let h: usize = buffer.height as usize;
    if !(x < w && y < h) {
        return Err(RectError::OutOfBounds);
    }
    let n: usize = buffer.data.len();
    let area: usize = w * h;
    proof {
        lemma_row_major_bound(w as int, h as int, x as int, y as int);
    }
    let seed: usize = y * w + x;
    let target: (u8, u8, u8, u8) = buffer.get_px(seed);
    let repl: (u8, u8, u8, u8) = color.value();
    let ghost orig = buffer.data@;
    if repl.0 == target.0 && repl.1 == target.1 && repl.2 == target.2 && repl.3 == target.3 {
        proof {
            assert forall|p: int|
                0 <= p < area implies pix(buffer.data@, p) == (if reaches(
                orig,
                w as int,
                area as int,
                seed as int,
                p,
            ) {
                repl
            } else {
                pix(orig, p)
            }) by {
                if reaches(orig, w as int, area as int, seed as int, p) {
                    let m = choose|m: nat| reach_n(orig, w as int, area as int, seed as int, p, m);
                    lemma_reach_color(orig, w as int, area as int, seed as int, p, m);
                }
            }
        }
        return Ok(());
    }
    let mut stack: Vec<usize> = Vec::new();
    stack.push(seed);
    let ghost mut filled: Set<int> = Set::empty();
    proof {
        assert(reach_n(orig, w as int, area as int, seed as int, seed as int, 0));
        assert(stack@[0] == seed);
        assert(stack_has(stack@, seed as int));
        assert((w as int) <= (w as int) * (h as int)) by (nonlinear_arith)
            requires
                h >= 1,
                w >= 0,
        ;
    }
    while stack.len() != 0
        invariant
            buffer.wf(),
            buffer.width == w,
            buffer.height == h,
            area == w * h,
            0 <= seed < area,
            w >= 1,
            w <= area,
            4 * area <= usize::MAX,
            pix(orig, seed as int) == target,
            repl != target,
            orig.len() == buffer.data@.len(),
            filled.finite(),
            filled.len() <= area,
            forall|p: int| #[trigger] filled.contains(p) ==> 0 <= p < area,
            forall|p: int| #[trigger]
                filled.contains(p) ==> reaches(orig, w as int, area as int, seed as int, p),
            forall|p: int| #[trigger] filled.contains(p) ==> pix(orig, p) == target,
            forall|p: int|
                0 <= p < area ==> pix(buffer.data@, p) == (if filled.contains(p) {
                    repl
                } else {
                    pix(orig, p)
                }),
            forall|k: int| 0 <= k < stack@.len() ==> 0 <= #[trigger] stack@[k] < area,
            forall|k: int|
                0 <= k < stack@.len() ==> (#[trigger] stack@[k] == seed || exists|p: int|
                    filled.contains(p) && lin_adj(w as int, area as int, p, stack@[k] as int)),
            forall|p: int, q: int|
                filled.contains(p) && #[trigger] lin_adj(w as int, area as int, p, q) && pix(
                    orig,
                    q,
                ) == target && !filled.contains(q) ==> stack_has(stack@, q),
            filled.contains(seed as int) || stack_has(stack@, seed as int),
        decreases area - filled.len(), stack@.len(),
    {
        let ghost pre_stack = stack@;
        let node: usize = stack.pop().unwrap();
        let c: (u8, u8, u8, u8) = buffer.get_px(node);
        if c.0 == target.0 && c.1 == target.1 && c.2 == target.2 && c.3 == target.3 {
            proof {
                assert(!filled.contains(node as int));
                assert(pix(orig, node as int) == target);
                if node != seed {
                    let p = choose|p: int|
                        filled.contains(p) && lin_adj(w as int, area as int, p, node as int);
                    lemma_reach_step(
                        orig,
                        w as int,
                        area as int,
                        seed as int,
                        p,
                        node as int,
                    );
                } else {
                    assert(reach_n(orig, w as int, area as int, seed as int, seed as int, 0));
                }
            }
            buffer.set_px(node, repl);
            let ghost old_filled = filled;
            proof {
                filled = filled.insert(node as int);
                lemma_int_range(0, area as int);
                assert(filled.subset_of(set_int_range(0, area as int)));
                lemma_len_subset(filled, set_int_range(0, area as int));
            }
            let g1: bool = node + 1 < area;
            let g2: bool = node >= 1;
            let g3: bool = node + w < area;
            let g4: bool = node >= w;
            if g1 {
                stack.push(node + 1);
            }
            if g2 {
                stack.push(node - 1);
            }
            if g3 {
                stack.push(node + w);
            }
            if g4 {
                stack.push(node - w);
            }
            proof {
                let base = pre_stack.len() - 1;
                let i1 = base;
                let i2 = base + (if g1 { 1int } else { 0int });
                let i3 = i2 + (if g2 { 1int } else { 0int });
                let i4 = i3 + (if g3 { 1int } else { 0int });
                assert(forall|k: int| 0 <= k < base ==> stack@[k] == pre_stack[k]);
                if g1 {
                    assert(stack@[i1] == node + 1);
                }
                if g2 {
                    assert(stack@[i2] == node - 1);
                }
                if g3 {
                    assert(stack@[i3] == node + w);
                }
                if g4 {
                    assert(stack@[i4] == node - w);
                }
                assert forall|k: int| 0 <= k < stack@.len() implies (#[trigger] stack@[k] == seed
                    || exists|p: int|
                    filled.contains(p) && lin_adj(
                        w as int,
                        area as int,
                        p,
                        stack@[k] as int,
                    )) by {
                    if k < base {
                        assert(pre_stack[k] == stack@[k]);
                        if pre_stack[k] != seed {
                            let p = choose|p: int|
                                old_filled.contains(p) && lin_adj(
                                    w as int,
                                    area as int,
                                    p,
                                    pre_stack[k] as int,
                                );
                            assert(filled.contains(p));
                            assert(lin_adj(w as int, area as int, p, stack@[k] as int));
                        }
                    } else {
                        assert(filled.contains(node as int));
                        assert(lin_adj(w as int, area as int, node as int, stack@[k] as int));
                    }
                }
                assert forall|p: int, q: int|
                    filled.contains(p) && #[trigger] lin_adj(w as int, area as int, p, q) && pix(
                        orig,
                        q,
                    ) == target && !filled.contains(q) implies stack_has(stack@, q) by {
                    if p == node {
                        if q == node + 1 {
                            assert(stack@[i1] == q);
                        } else if q + 1 == node {
                            assert(stack@[i2] == q);
                        } else if q == node + w {
                            assert(stack@[i3] == q);
                        } else {
                            assert(q + w == node);
                            assert(stack@[i4] == q);
                        }
                        assert(stack_has(stack@, q));
                    } else {
                        assert(old_filled.contains(p));
                        assert(stack_has(pre_stack, q));
                        let k = choose|k: int| 0 <= k < pre_stack.len() && pre_stack[k] == q;
                        assert(q != node);
                        assert(k < base);
                        assert(stack@[k] == q);
                        assert(stack_has(stack@, q));
                    }
                }
                if !filled.contains(seed as int) {
                    let k = choose|k: int| 0 <= k < pre_stack.len() && pre_stack[k] == seed;
                    assert(seed != node);
                    assert(k < base);
                    assert(stack@[k] == seed);
                    assert(stack_has(stack@, seed as int));
                }
            }
        } else {
            proof {
                assert(filled.contains(node as int) || pix(orig, node as int) != target);
                assert forall|p: int, q: int|
                    filled.contains(p) && #[trigger] lin_adj(w as int, area as int, p, q) && pix(
                        orig,
                        q,
                    ) == target && !filled.contains(q) implies stack_has(stack@, q) by {
                    let k = choose|k: int|
                        0 <= k < pre_stack.len() && pre_stack[k] == q;
                    assert(q != node);
                    assert(k < pre_stack.len() - 1);
                    assert(stack@[k] == q);
                    assert(stack_has(stack@, q));
                }
                if !filled.contains(seed as int) {
                    let k = choose|k: int|
                        0 <= k < pre_stack.len() && pre_stack[k] == seed;
                    assert(seed != node);
                    assert(k < pre_stack.len() - 1);
                    assert(stack@[k] == seed);
                    assert(stack_has(stack@, seed as int));
                }
            }
        }
    }
    proof {
        assert(filled.contains(seed as int));
        assert forall|p: int|
            0 <= p < area && reaches(orig, w as int, area as int, seed as int, p) implies
            filled.contains(p) by {
            let m = choose|m: nat| reach_n(orig, w as int, area as int, seed as int, p, m);
            lemma_reach_in_closed(orig, w as int, area as int, seed as int, filled, p, m);
        }
    }
    Ok(())
}

} // verus!
