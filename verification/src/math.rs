//! Chunk coordinates in the order in which they are sent to a client, and the
//! fixed point form in which entity movement is sent.
use std::sync::Arc;

use crate::double::{fixed_point_of, to_fixed_point};
use crate::protocol::SimpleLocation;
use vstd::prelude::*;

verus! {

/// The largest radius for which every squared distance fits in an `i32`.
pub const MAX_RADIUS: i32 = 32767;

/// The squared distance of a chunk coordinate from the origin.
pub open spec fn distance_squared(c: (i32, i32)) -> int {
    c.0 * c.0 + c.1 * c.1
}

/// Coordinates order by distance from the origin; at equal distance by `x`, then `z`.
pub open spec fn nearer(a: (i32, i32), b: (i32, i32)) -> bool {
    ||| distance_squared(a) < distance_squared(b)
    ||| distance_squared(a) == distance_squared(b) && before_in_scan(a, b)
}

/// The order of a scan over the grid: `x` ascending, and `z` ascending for each `x`.
pub open spec fn before_in_scan(a: (i32, i32), b: (i32, i32)) -> bool {
    a.0 < b.0 || a.0 == b.0 && a.1 < b.1
}

/// Whether a coordinate lies in the square of the given radius around the origin.
pub open spec fn in_square(c: (i32, i32), radius: i32) -> bool {
    -radius <= c.0 <= radius && -radius <= c.1 <= radius
}

/// The sequence holds the coordinates of the square, and no others.
spec fn holds_square(coords: Seq<(i32, i32)>, radius: i32) -> bool {
    forall|c: (i32, i32)| in_square(c, radius) <==> #[trigger] coords.contains(c)
}

/// Coordinates at equal distance stand in scan order.
spec fn ties_in_scan_order(coords: Seq<(i32, i32)>) -> bool {
    forall|i: int, j: int|
        0 <= i < j < coords.len() && distance_squared(#[trigger] coords[i]) == distance_squared(
            #[trigger] coords[j],
        ) ==> before_in_scan(coords[i], coords[j])
}

spec fn distances_of(distances: Seq<i32>, coords: Seq<(i32, i32)>) -> bool {
    &&& distances.len() == coords.len()
    &&& forall|i: int|
        0 <= i < coords.len() ==> #[trigger] distances[i] == distance_squared(coords[i])
}

/// The last `k` distances are sorted, and none before them exceeds any of them.
spec fn settled(d: Seq<i32>, k: int) -> bool {
    forall|i: int, j: int|
        0 <= i < j < d.len() && d.len() - k <= j ==> #[trigger] d[i] <= #[trigger] d[j]
}

/// The element at `i` of a scan over the square.
spec fn scanned(i: int, radius: int) -> (int, int) {
    (i / (2 * radius + 1) - radius, i % (2 * radius + 1) - radius)
}

proof fn lemma_square_bound(x: int, r: int)
    requires
        -r <= x <= r,
        0 <= r <= 32767,
    ensures
        0 <= x * x <= r * r,
        x * x <= 1073676289,
{
    assert(0 <= x * x <= r * r) by (nonlinear_arith)
        requires
            -r <= x <= r,
            0 <= r,
    ;
    assert(r * r <= 1073676289) by (nonlinear_arith)
        requires
            0 <= r <= 32767,
    ;
}

/// Swapping two neighbours keeps the elements.
proof fn lemma_swap_holds(a: Seq<(i32, i32)>, b: Seq<(i32, i32)>, i: int, radius: i32)
    requires
        0 <= i < a.len() - 1,
        b == a.update(i, a[i + 1]).update(i + 1, a[i]),
        holds_square(a, radius),
    ensures
        holds_square(b, radius),
{
    assert forall|c: (i32, i32)| in_square(c, radius) <==> #[trigger] b.contains(c) by {
        if in_square(c, radius) {
            assert(a.contains(c));
            let k = choose|k: int| 0 <= k < a.len() && a[k] == c;
            let m = if k == i {
                i + 1
            } else if k == i + 1 {
                i
            } else {
                k
            };
            assert(b[m] == c);
        }
        if b.contains(c) {
            let k = choose|k: int| 0 <= k < b.len() && b[k] == c;
            let m = if k == i {
                i + 1
            } else if k == i + 1 {
                i
            } else {
                k
            };
            assert(a[m] == c);
            assert(a.contains(c));
        }
    }
}

/// A coordinate in the fixed point form of movement packets, in steps of `2^-12`.
pub fn encode_v(v: u64) -> (encoded: i64)
    ensures
        encoded == fixed_point_of(v),
{
    to_fixed_point(v)
}

/// The way from one point to another along each axis, in fixed point.
pub open spec fn displacement(from: SimpleLocation, to: SimpleLocation) -> (int, int, int) {
    (
        fixed_point_of(to.x) - fixed_point_of(from.x),
        fixed_point_of(to.y) - fixed_point_of(from.y),
        fixed_point_of(to.z) - fixed_point_of(from.z),
    )
}

/// Whether the way from one point to another can be counted in `i64`s.
pub open spec fn displacement_fits(from: SimpleLocation, to: SimpleLocation) -> bool {
    let d = displacement(from, to);
    i64::MIN <= d.0 <= i64::MAX && i64::MIN <= d.1 <= i64::MAX && i64::MIN <= d.2 <= i64::MAX
}

/// The way from `from` to `to` in the fixed point form of movement packets.
pub fn encode_position(from: SimpleLocation, to: SimpleLocation) -> (d: (i64, i64, i64))
    requires
        displacement_fits(from, to),
    ensures
        d.0 == displacement(from, to).0,
        d.1 == displacement(from, to).1,
        d.2 == displacement(from, to).2,
{
    (
        encode_v(to.x) - encode_v(from.x),
        encode_v(to.y) - encode_v(from.y),
        encode_v(to.z) - encode_v(from.z),
    )
}

/// The chunk coordinates within `radius` of the origin, nearest first.
pub fn create_sorted_coordinates(radius: i32) -> (sorted: Arc<Vec<(i32, i32)>>)
    requires
        0 <= radius <= MAX_RADIUS,
    ensures
        sorted@.len() == (2 * radius + 1) * (2 * radius + 1),
        forall|c: (i32, i32)| in_square(c, radius) <==> #[trigger] sorted@.contains(c),
        forall|i: int, j: int|
            0 <= i < j < sorted@.len() ==> nearer(#[trigger] sorted@[i], #[trigger] sorted@[j]),
{
    let width: usize = radius as usize * 2 + 1;
    assert(1 <= width * width <= 4294836225) by (nonlinear_arith)
        requires
            1 <= width <= 65535,
    ;
    let total: usize = width * width;
    let mut coords: Vec<(i32, i32)> = vec![(0i32, 0i32); total];
    let mut distances: Vec<i32> = vec![0i32; total];
    let mut i: usize = 0;
    let mut x: i32 = -radius;
    let mut z: i32 = -radius;
    while i < total
        invariant
            0 <= radius <= MAX_RADIUS,
            width == 2 * radius + 1,
            total == width * width,
            i <= total,
            coords@.len() == total,
            distances@.len() == total,
            i == 0 ==> x == -radius && z == -radius,
            i != 0 ==> x == (i - 1) / width as int - radius,
            i != 0 ==> z == (i - 1) % width as int - radius + 1,
            forall|j: int|
                0 <= j < i ==> (#[trigger] coords@[j]).0 == scanned(j, radius as int).0
                    && coords@[j].1 == scanned(j, radius as int).1,
            forall|j: int|
                0 <= j < i ==> #[trigger] distances@[j] == distance_squared(coords@[j]),
        decreases total - i,
    {
        proof {
            vstd::arithmetic::div_mod::lemma_fundamental_div_mod(i as int, width as int);
            if i != 0 {
                lemma_scan_step(i as int, width as int);
            }
            lemma_row_bound(i as int, width as int);
        }
        if i != 0 && i % width == 0 {
            x = x + 1;
            z = -radius;
        }
        assert(x == scanned(i as int, radius as int).0);
        assert(z == scanned(i as int, radius as int).1);
        proof {
            lemma_square_bound(x as int, radius as int);
            lemma_square_bound(z as int, radius as int);
        }
        coords[i] = (x, z);
        distances[i] = (x * x) + (z * z);
        z = z + 1;
        i = i + 1;
    }
    proof {
        lemma_scan_is_square(coords@, radius);
    }
    let mut swapped: bool = true;
    let ghost mut settled_count: int = 0;
    while swapped
        invariant
            0 <= radius <= MAX_RADIUS,
            total >= 1,
            coords@.len() == total,
            0 <= settled_count <= total,
            distances_of(distances@, coords@),
            holds_square(coords@, radius),
            ties_in_scan_order(coords@),
            settled(distances@, settled_count),
            !swapped ==> settled(distances@, total as int),
        decreases (if swapped { total + 1 - settled_count } else { 0 }),
    {
        swapped = false;
        let mut i: usize = 0;
        let ghost before: int = settled_count;
        while i < total - 1
            invariant
                0 <= radius <= MAX_RADIUS,
                total >= 1,
                i <= total - 1,
                coords@.len() == total,
                0 <= before <= total,
                distances_of(distances@, coords@),
                holds_square(coords@, radius),
                ties_in_scan_order(coords@),
                settled(distances@, before),
                forall|j: int| 0 <= j < i ==> #[trigger] distances@[j] <= distances@[i as int],
                !swapped ==> forall|j: int, k: int|
                    0 <= j < k <= i ==> #[trigger] distances@[j] <= #[trigger] distances@[k],
                before < total && i >= total - 1 - before ==> forall|j: int|
                    0 <= j < total - 1 - before ==> #[trigger] distances@[j] <= distances@[total - 1
                        - before],
                swapped ==> before < total,
            decreases total - i,
        {
            if distances[i + 1] < distances[i] {
                proof {
                    if before == total {
                        assert(distances@[i as int] <= distances@[i + 1]);
                    }
                }
                let ghost old_coords = coords@;
                let ghost old_distances = distances@;
                let d: i32 = distances[i];
                distances[i] = distances[i + 1];
                distances[i + 1] = d;
                let c: (i32, i32) = coords[i];
                coords[i] = coords[i + 1];
                coords[i + 1] = c;
                proof {
                    assert(coords@ =~= old_coords.update(i as int, old_coords[i + 1]).update(
                        i + 1,
                        old_coords[i as int],
                    ));
                    lemma_swap_holds(old_coords, coords@, i as int, radius);
                    assert(settled(distances@, before)) by {
                        assert forall|a: int, b: int|
                            0 <= a < b < distances@.len() && distances@.len() - before
                                <= b implies #[trigger] distances@[a]
                            <= #[trigger] distances@[b] by {
                            assert(distances@[a] == old_distances[if a == i {
                                i + 1
                            } else if a == i + 1 {
                                i as int
                            } else {
                                a
                            }]);
                            assert(old_distances[i as int] > old_distances[i + 1]);
                            assert(i + 1 < distances@.len() - before);
                        }
                    }
                }
                swapped = true;
            }
            i = i + 1;
        }
        proof {
            if before < total {
                settled_count = before + 1;
                assert(settled(distances@, settled_count));
            }
        }
    }
    proof {
        assert forall|i: int, j: int| 0 <= i < j < coords@.len() implies nearer(
            #[trigger] coords@[i],
            #[trigger] coords@[j],
        ) by {
            assert(distances@[i] <= distances@[j]);
        }
    }
    Arc::new(coords)
}

proof fn lemma_row_bound(i: int, width: int)
    requires
        1 <= width,
        0 <= i < width * width,
    ensures
        0 <= i / width < width,
        0 <= i % width < width,
{
    vstd::arithmetic::div_mod::lemma_fundamental_div_mod(i, width);
    assert(0 <= i / width < width) by (nonlinear_arith)
        requires
            1 <= width,
            0 <= i < width * width,
            i == width * (i / width) + i % width,
            0 <= i % width < width,
    ;
}

proof fn lemma_scan_step(i: int, width: int)
    requires
        1 <= width,
        0 < i,
    ensures
        i % width == 0 ==> i / width == (i - 1) / width + 1,
        i % width != 0 ==> i / width == (i - 1) / width && i % width == (i - 1) % width + 1,
{
    let q = (i - 1) / width;
    let r = (i - 1) % width;
    vstd::arithmetic::div_mod::lemma_fundamental_div_mod(i - 1, width);
    if r + 1 < width {
        vstd::arithmetic::div_mod::lemma_fundamental_div_mod_converse(i, width, q, r + 1);
    } else {
        assert(width * (q + 1) == width * q + width) by (nonlinear_arith);
        vstd::arithmetic::div_mod::lemma_fundamental_div_mod_converse(i, width, q + 1, 0);
    }
}

/// A complete scan holds the square, each coordinate once and in scan order.
proof fn lemma_scan_is_square(coords: Seq<(i32, i32)>, radius: i32)
    requires
        0 <= radius <= MAX_RADIUS,
        coords.len() == (2 * radius + 1) * (2 * radius + 1),
        forall|j: int|
            0 <= j < coords.len() ==> (#[trigger] coords[j]).0 == scanned(j, radius as int).0
                && coords[j].1 == scanned(j, radius as int).1,
    ensures
        holds_square(coords, radius),
        ties_in_scan_order(coords),
{
    let w = 2 * radius + 1;
    assert forall|c: (i32, i32)| in_square(c, radius) <==> #[trigger] coords.contains(c) by {
        if in_square(c, radius) {
            let a = c.0 + radius;
            let b = c.1 + radius;
            let k = w * a + b;
            assert(0 <= k < w * w) by (nonlinear_arith)
                requires
                    0 <= a <= w - 1,
                    0 <= b <= w - 1,
                    k == w * a + b,
            ;
            vstd::arithmetic::div_mod::lemma_fundamental_div_mod_converse(k, w as int, a, b);
            assert(coords[k] == c);
        }
        if coords.contains(c) {
            let k = choose|k: int| 0 <= k < coords.len() && coords[k] == c;
            lemma_row_bound(k, w as int);
        }
    }
    assert forall|i: int, j: int|
        0 <= i < j < coords.len() && distance_squared(#[trigger] coords[i]) == distance_squared(
            #[trigger] coords[j],
        ) implies before_in_scan(coords[i], coords[j]) by {
        vstd::arithmetic::div_mod::lemma_div_is_ordered(i, j, w as int);
        vstd::arithmetic::div_mod::lemma_fundamental_div_mod(i, w as int);
        vstd::arithmetic::div_mod::lemma_fundamental_div_mod(j, w as int);
    }
}

/// The section, sixteen blocks wide, that a block lies in along one axis.
pub fn section_coordinate(block: i32) -> (section: i32)
    ensures
        section == block as int / 16,
{
    let section: i32 = block >> 4;
    assert(section * 16 <= block && block < section * 16 + 16) by (bit_vector)
        requires
            section == block >> 4,
    ;
    section
}

/// The way from one point to another, in 4096ths of a block, is the one that leads from the
/// first to the second along each axis.
pub proof fn displacements_lead_there(from: SimpleLocation, to: SimpleLocation)
    ensures
        fixed_point_of(from.x) + displacement(from, to).0 == fixed_point_of(to.x),
        fixed_point_of(from.y) + displacement(from, to).1 == fixed_point_of(to.y),
        fixed_point_of(from.z) + displacement(from, to).2 == fixed_point_of(to.z),
{
}

/// A coordinate comes before another in what is sent where its distance from the origin is
/// less, or where it is the same and its `x` is less, or that too and its `z`.
pub proof fn nearer_coordinates_come_first(a: (i32, i32), b: (i32, i32))
    ensures
        nearer(a, b) <==> {
            ||| a.0 * a.0 + a.1 * a.1 < b.0 * b.0 + b.1 * b.1
            ||| a.0 * a.0 + a.1 * a.1 == b.0 * b.0 + b.1 * b.1 && (a.0 < b.0 || a.0 == b.0 && a.1
                < b.1)
        },
        !(nearer(a, b) && nearer(b, a)),
        nearer(a, b) || nearer(b, a) || a == b,
{
}

/// A square reaches as far as its radius along both axes, on either side of the origin.
pub proof fn squares_reach_their_radius(c: (i32, i32), radius: i32)
    ensures
        in_square(c, radius) <==> -radius <= c.0 && c.0 <= radius && -radius <= c.1 && c.1
            <= radius,
        in_square(c, radius) && c.0 > i32::MIN && c.1 > i32::MIN ==> in_square(
            ((-c.0) as i32, (-c.1) as i32),
            radius,
        ) && in_square((c.1, c.0), radius),
{
}

} // verus!
