//! Integer layout of strided readback: which grid nodes are returned and
//! how many workgroups cover a grid axis.

use vstd::arithmetic::div_mod::{lemma_fundamental_div_mod, lemma_fundamental_div_mod_converse};
use vstd::prelude::*;

verus! {

/// `⌈a / b⌉` for `a >= 0`, `b > 0`.
pub open spec fn ceil_div_spec(a: int, b: int) -> int {
    (a + b - 1) / b
}

/// Facts about `⌈a / b⌉`: it is the least `q` with `q·b >= a`.
pub proof fn lemma_ceil_div(a: int, b: int)
    requires
        a >= 0,
        b >= 1,
    ensures
        ceil_div_spec(a, b) >= 0,
        ceil_div_spec(a, b) * b >= a,
        ceil_div_spec(a, b) > 0 ==> (ceil_div_spec(a, b) - 1) * b < a,
        ceil_div_spec(a, b) <= a || a == 0,
        a > 0 ==> ceil_div_spec(a, b) >= 1,
        ceil_div_spec(a, b) == a / b + (if a % b == 0 { 0int } else { 1int }),
{
    let q = ceil_div_spec(a, b);
    lemma_fundamental_div_mod(a, b);
    lemma_fundamental_div_mod(a + b - 1, b);
    let r = a % b;
    assert(b * (a / b) == (a / b) * b) by (nonlinear_arith);
    if r == 0 {
        lemma_fundamental_div_mod_converse(a + b - 1, b, a / b, b - 1);
    } else {
        assert(a + b - 1 == (a / b + 1) * b + (r - 1)) by (nonlinear_arith)
            requires
                a == b * (a / b) + r,
        ;
        lemma_fundamental_div_mod_converse(a + b - 1, b, a / b + 1, r - 1);
    }
    assert(q == a / b + (if r == 0 { 0int } else { 1int }));
    assert(b * (a / b) == (a / b) * b) by (nonlinear_arith);
    assert((a / b) >= 0) by (nonlinear_arith)
        requires
            a >= 0,
            b >= 1,
    ;
    assert(q * b >= a) by (nonlinear_arith)
        requires
            q == a / b + (if r == 0 { 0int } else { 1int }),
            a == b * (a / b) + r,
            0 <= r < b,
    ;
    assert(q > 0 ==> (q - 1) * b < a) by (nonlinear_arith)
        requires
            q == a / b + (if r == 0 { 0int } else { 1int }),
            a == b * (a / b) + r,
            0 <= r < b,
            a / b >= 0,
    ;
    assert(q <= a || a == 0) by (nonlinear_arith)
        requires
            q == a / b + (if r == 0 { 0int } else { 1int }),
            a == b * (a / b) + r,
            0 <= r < b,
            a / b >= 0,
            b >= 1,
    ;
    assert(a > 0 ==> q >= 1) by (nonlinear_arith)
        requires
            q == a / b + (if r == 0 { 0int } else { 1int }),
            a == b * (a / b) + r,
            0 <= r < b,
            a / b >= 0,
    ;
}

/// `⌈a / b⌉`, computed without overflow.
pub fn ceil_div(a: u32, b: u32) -> (r: u32)
    requires
        b > 0,
    ensures
        r as int == ceil_div_spec(a as int, b as int),
        r as int * b >= a,
        r > 0 ==> (r - 1) * b < a,
        r <= a || a == 0,
{
    proof {
        lemma_ceil_div(a as int, b as int);
    }
    let q = a / b;
    if a % b == 0 {
        q
    } else {
        q + 1
    }
}

/// Along one axis of `n` nodes read back every `s`-th node, the returned
/// positions `j·s` (`j < ⌈n/s⌉`) are exactly the multiples of `s` below `n`.
pub proof fn lemma_kept_positions(n: int, s: int)
    requires
        n >= 0,
        s >= 1,
    ensures
        forall|j: int| 0 <= j < ceil_div_spec(n, s) ==> 0 <= #[trigger] (j * s) < n,
        forall|j: int| #![trigger (j * s)] 0 <= j ==> (j * s) % s == 0 && (j * s) / s == j,
        forall|x: int|
            0 <= x < n && x % s == 0 ==> 0 <= #[trigger] (x / s) < ceil_div_spec(n, s) && (x
                / s) * s == x,
{
    lemma_ceil_div(n, s);
    let o = ceil_div_spec(n, s);
    assert forall|j: int| 0 <= j < o implies 0 <= #[trigger] (j * s) < n by {
        assert(0 <= j * s) by (nonlinear_arith)
            requires
                0 <= j,
                s >= 1,
        ;
        assert(j * s <= (o - 1) * s) by (nonlinear_arith)
            requires
                j <= o - 1,
                s >= 1,
        ;
    }
    assert forall|j: int| #![trigger (j * s)] 0 <= j implies (j * s) % s == 0 && (j * s) / s
        == j by {
        lemma_fundamental_div_mod_converse(j * s, s, j, 0);
    }
    assert forall|x: int| 0 <= x < n && x % s == 0 implies 0 <= #[trigger] (x / s) < o && (x
        / s) * s == x by {
        lemma_fundamental_div_mod(x, s);
        assert(s * (x / s) == (x / s) * s) by (nonlinear_arith);
        assert(0 <= x / s) by (nonlinear_arith)
            requires
                x >= 0,
                s >= 1,
        ;
        if x / s >= o {
            assert((x / s) * s >= o * s) by (nonlinear_arith)
                requires
                    x / s >= o,
                    s >= 1,
            ;
        }
    }
}


/// Grid node `(x, y)` of a `w × h` grid is returned when reading back every
/// `s`-th node along each axis.
pub open spec fn kept_2d(w: int, h: int, s: int, x: int, y: int) -> bool {
    &&& 0 <= x < w
    &&& 0 <= y < h
    &&& x % s == 0
    &&& y % s == 0
}

/// The grid node behind output index `k` of a strided readback `ow` nodes
/// wide: row-major, `x` fastest.
pub open spec fn source_2d(ow: int, s: int, k: int) -> (int, int) {
    ((k % ow) * s, (k / ow) * s)
}

/// The output index of a returned grid node.
pub open spec fn index_2d(ow: int, s: int, x: int, y: int) -> int {
    (y / s) * ow + x / s
}

/// A strided 2-D readback returns exactly one value per kept node, in
/// row-major order: the `⌈w/s⌉·⌈h/s⌉` output indices map one-to-one onto the
/// kept nodes.
pub proof fn lemma_strided_2d(w: int, h: int, s: int)
    requires
        w >= 0,
        h >= 0,
        s >= 1,
    ensures
        forall|k: int|
            0 <= k < ceil_div_spec(w, s) * ceil_div_spec(h, s) ==> kept_2d(
                w,
                h,
                s,
                #[trigger] source_2d(ceil_div_spec(w, s), s, k).0,
                source_2d(ceil_div_spec(w, s), s, k).1,
            ),
        forall|k1: int, k2: int|
            0 <= k1 < ceil_div_spec(w, s) * ceil_div_spec(h, s) && 0 <= k2 < ceil_div_spec(w, s)
                * ceil_div_spec(h, s) && k1 != k2 ==> #[trigger] source_2d(
                ceil_div_spec(w, s),
                s,
                k1,
            ) != #[trigger] source_2d(ceil_div_spec(w, s), s, k2),
        forall|x: int, y: int|
            #[trigger] kept_2d(w, h, s, x, y) ==> 0 <= index_2d(ceil_div_spec(w, s), s, x, y)
                < ceil_div_spec(w, s) * ceil_div_spec(h, s) && source_2d(
                ceil_div_spec(w, s),
                s,
                index_2d(ceil_div_spec(w, s), s, x, y),
            ) == (x, y),
{
    let ow = ceil_div_spec(w, s);
    let oh = ceil_div_spec(h, s);
    lemma_ceil_div(w, s);
    lemma_ceil_div(h, s);
    lemma_kept_positions(w, s);
    lemma_kept_positions(h, s);
    assert forall|k: int| 0 <= k < ow * oh implies kept_2d(
        w,
        h,
        s,
        #[trigger] source_2d(ow, s, k).0,
        source_2d(ow, s, k).1,
    ) by {
        assert(ow > 0) by (nonlinear_arith)
            requires
                0 <= k < ow * oh,
                ow >= 0,
                oh >= 0,
        ;
        lemma_fundamental_div_mod(k, ow);
        let gx = k % ow;
        let gy = k / ow;
        assert(0 <= gy < oh) by (nonlinear_arith)
            requires
                k == ow * gy + gx,
                0 <= gx < ow,
                0 <= k < ow * oh,
        ;
        assert(0 <= gx * s < w);
        assert(0 <= gy * s < h);
        assert((gx * s) % s == 0);
        assert((gy * s) % s == 0);
    }
    assert forall|k1: int, k2: int|
        0 <= k1 < ow * oh && 0 <= k2 < ow * oh && k1 != k2 implies #[trigger] source_2d(
        ow,
        s,
        k1,
    ) != #[trigger] source_2d(ow, s, k2) by {
        assert(ow > 0) by (nonlinear_arith)
            requires
                0 <= k1 < ow * oh,
                ow >= 0,
                oh >= 0,
        ;
        lemma_fundamental_div_mod(k1, ow);
        lemma_fundamental_div_mod(k2, ow);
        if source_2d(ow, s, k1) == source_2d(ow, s, k2) {
            assert(k1 % ow >= 0 && k1 / ow >= 0) by (nonlinear_arith)
                requires
                    k1 >= 0,
                    ow > 0,
            ;
            assert(k2 % ow >= 0 && k2 / ow >= 0) by (nonlinear_arith)
                requires
                    k2 >= 0,
                    ow > 0,
            ;
            assert(((k1 % ow) * s) / s == k1 % ow);
            assert(((k2 % ow) * s) / s == k2 % ow);
            assert(((k1 / ow) * s) / s == k1 / ow);
            assert(((k2 / ow) * s) / s == k2 / ow);
        }
    }
    assert forall|x: int, y: int| #[trigger] kept_2d(w, h, s, x, y) implies 0 <= index_2d(
        ow,
        s,
        x,
        y,
    ) < ow * oh && source_2d(ow, s, index_2d(ow, s, x, y)) == (x, y) by {
        let a = x / s;
        let b = y / s;
        assert(0 <= a < ow && a * s == x);
        assert(0 <= b < oh && b * s == y);
        let k = b * ow + a;
        assert(0 <= k < ow * oh) by (nonlinear_arith)
            requires
                k == b * ow + a,
                0 <= a < ow,
                0 <= b < oh,
        ;
        lemma_fundamental_div_mod_converse(k, ow, b, a);
    }
}


/// Grid node `(x, y, z)` of a `w × h × d` grid is returned when reading
/// back every `s`-th node along each axis.
pub open spec fn kept_3d(w: int, h: int, d: int, s: int, x: int, y: int, z: int) -> bool {
    &&& 0 <= x < w
    &&& 0 <= y < h
    &&& 0 <= z < d
    &&& x % s == 0
    &&& y % s == 0
    &&& z % s == 0
}

/// The grid node behind output index `k` of a strided readback of
/// `ow × oh` nodes per layer: row-major, `x` fastest, then `y`, then `z`.
pub open spec fn source_3d(ow: int, oh: int, s: int, k: int) -> (int, int, int) {
    ((k % ow) * s, ((k / ow) % oh) * s, ((k / ow) / oh) * s)
}

/// The output index of a returned grid node.
pub open spec fn index_3d(ow: int, oh: int, s: int, x: int, y: int, z: int) -> int {
    ((z / s) * oh + y / s) * ow + x / s
}

/// A strided 3-D readback returns exactly one value per kept node, in
/// row-major order with `x` fastest.
pub proof fn lemma_strided_3d(w: int, h: int, d: int, s: int)
    requires
        w >= 0,
        h >= 0,
        d >= 0,
        s >= 1,
    ensures
        forall|k: int|
            0 <= k < ceil_div_spec(w, s) * ceil_div_spec(h, s) * ceil_div_spec(d, s) ==> {
                let p = #[trigger] source_3d(ceil_div_spec(w, s), ceil_div_spec(h, s), s, k);
                kept_3d(w, h, d, s, p.0, p.1, p.2)
            },
        forall|k1: int, k2: int|
            0 <= k1 < ceil_div_spec(w, s) * ceil_div_spec(h, s) * ceil_div_spec(d, s) && 0 <= k2
                < ceil_div_spec(w, s) * ceil_div_spec(h, s) * ceil_div_spec(d, s) && k1 != k2
                ==> #[trigger] source_3d(ceil_div_spec(w, s), ceil_div_spec(h, s), s, k1)
                != #[trigger] source_3d(ceil_div_spec(w, s), ceil_div_spec(h, s), s, k2),
        forall|x: int, y: int, z: int|
            #[trigger] kept_3d(w, h, d, s, x, y, z) ==> {
                let k = index_3d(ceil_div_spec(w, s), ceil_div_spec(h, s), s, x, y, z);
                &&& 0 <= k < ceil_div_spec(w, s) * ceil_div_spec(h, s) * ceil_div_spec(d, s)
                &&& source_3d(ceil_div_spec(w, s), ceil_div_spec(h, s), s, k) == (x, y, z)
            },
{
    let ow = ceil_div_spec(w, s);
    let oh = ceil_div_spec(h, s);
    let od = ceil_div_spec(d, s);
    lemma_ceil_div(w, s);
    lemma_ceil_div(h, s);
    lemma_ceil_div(d, s);
    lemma_kept_positions(w, s);
    lemma_kept_positions(h, s);
    lemma_kept_positions(d, s);
    assert forall|k: int| 0 <= k < ow * oh * od implies {
        let p = #[trigger] source_3d(ow, oh, s, k);
        kept_3d(w, h, d, s, p.0, p.1, p.2)
    } by {
        assert(ow > 0 && oh > 0) by (nonlinear_arith)
            requires
                0 <= k < ow * oh * od,
                ow >= 0,
                oh >= 0,
                od >= 0,
        ;
        lemma_fundamental_div_mod(k, ow);
        let gx = k % ow;
        let r = k / ow;
        assert(0 <= r < oh * od) by (nonlinear_arith)
            requires
                k == ow * r + gx,
                0 <= gx < ow,
                0 <= k < ow * oh * od,
        ;
        lemma_fundamental_div_mod(r, oh);
        let gy = r % oh;
        let gz = r / oh;
        assert(0 <= gz < od) by (nonlinear_arith)
            requires
                r == oh * gz + gy,
                0 <= gy < oh,
                0 <= r < oh * od,
        ;
        assert(0 <= gx * s < w);
        assert(0 <= gy * s < h);
        assert(0 <= gz * s < d);
        assert((gx * s) % s == 0);
        assert((gy * s) % s == 0);
        assert((gz * s) % s == 0);
    }
    assert forall|k1: int, k2: int|
        0 <= k1 < ow * oh * od && 0 <= k2 < ow * oh * od && k1 != k2 implies #[trigger] source_3d(
        ow,
        oh,
        s,
        k1,
    ) != #[trigger] source_3d(ow, oh, s, k2) by {
        assert(ow > 0 && oh > 0) by (nonlinear_arith)
            requires
                0 <= k1 < ow * oh * od,
                ow >= 0,
                oh >= 0,
                od >= 0,
        ;
        if source_3d(ow, oh, s, k1) == source_3d(ow, oh, s, k2) {
            lemma_fundamental_div_mod(k1, ow);
            lemma_fundamental_div_mod(k2, ow);
            let r1 = k1 / ow;
            let r2 = k2 / ow;
            assert(r1 >= 0 && r2 >= 0 && k1 % ow >= 0 && k2 % ow >= 0) by (nonlinear_arith)
                requires
                    k1 >= 0,
                    k2 >= 0,
                    ow > 0,
                    r1 == k1 / ow,
                    r2 == k2 / ow,
            ;
            lemma_fundamental_div_mod(r1, oh);
            lemma_fundamental_div_mod(r2, oh);
            assert(r1 % oh >= 0 && r1 / oh >= 0 && r2 % oh >= 0 && r2 / oh >= 0) by (nonlinear_arith)
                requires
                    r1 >= 0,
                    r2 >= 0,
                    oh > 0,
            ;
            assert(((k1 % ow) * s) / s == k1 % ow);
            assert(((k2 % ow) * s) / s == k2 % ow);
            assert(((r1 % oh) * s) / s == r1 % oh);
            assert(((r2 % oh) * s) / s == r2 % oh);
            assert(((r1 / oh) * s) / s == r1 / oh);
            assert(((r2 / oh) * s) / s == r2 / oh);
            assert(r1 == r2);
        }
    }
    assert forall|x: int, y: int, z: int| #[trigger] kept_3d(w, h, d, s, x, y, z) implies {
        let k = index_3d(ow, oh, s, x, y, z);
        &&& 0 <= k < ow * oh * od
        &&& source_3d(ow, oh, s, k) == (x, y, z)
    } by {
        let a = x / s;
        let b = y / s;
        let c = z / s;
        assert(0 <= a < ow && a * s == x);
        assert(0 <= b < oh && b * s == y);
        assert(0 <= c < od && c * s == z);
        let r = c * oh + b;
        let k = r * ow + a;
        assert(0 <= r < oh * od) by (nonlinear_arith)
            requires
                r == c * oh + b,
                0 <= b < oh,
                0 <= c < od,
        ;
        assert(0 <= k < ow * oh * od) by (nonlinear_arith)
            requires
                k == r * ow + a,
                0 <= a < ow,
                0 <= r < oh * od,
        ;
        assert(ow * oh * od == ow * (oh * od)) by (nonlinear_arith);
        lemma_fundamental_div_mod_converse(k, ow, r, a);
        lemma_fundamental_div_mod_converse(r, oh, c, b);
    }
}

/// The state buffers of a stepping simulation swap roles after every step:
/// the bind group used next is the other one of the two.
pub fn swap_index(current: usize) -> (next: usize)
    requires
        current < 2,
    ensures
        next < 2,
        next != current,
        next == 1 - current,
{
    assert(current < 2 ==> (current ^ 1usize) == 1 - current) by (bit_vector);
    current ^ 1
}

} // verus!
