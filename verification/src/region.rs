//! Connected regions of a binary mask, and the search for the largest one.

use vstd::prelude::*;
use crate::bytes::clear_bytes;
use crate::grid::{
    column, lemma_coordinates, lemma_index_in_grid, lemma_pixel, lemma_row_in_grid, row, touching,
};

verus! {

/// Both pixels are set and they touch.
pub open spec fn linked(mask: Seq<u8>, width: int, a: int, b: int) -> bool {
    &&& 0 <= a < mask.len()
    &&& 0 <= b < mask.len()
    &&& mask[a] != 0
    &&& mask[b] != 0
    &&& touching(width, a, b)
}

/// A sequence of set pixels in which each touches the next.
pub open spec fn is_walk(mask: Seq<u8>, width: int, walk: Seq<int>) -> bool {
    &&& walk.len() > 0
    &&& forall|k: int|
        0 <= k < walk.len() ==> 0 <= #[trigger] walk[k] < mask.len() && mask[walk[k]] != 0
    &&& forall|k: int|
        0 < k < walk.len() ==> touching(width, walk[k - 1], #[trigger] walk[k])
}

/// One pixel can be reached from the other over set pixels.
pub open spec fn connected(mask: Seq<u8>, width: int, a: int, b: int) -> bool {
    exists|walk: Seq<int>| #[trigger]
        is_walk(mask, width, walk) && walk.first() == a && walk.last() == b
}

/// All pixels that can be reached from `seed`.
pub open spec fn region(mask: Seq<u8>, width: int, seed: int) -> Set<int> {
    Set::new(|i: int| connected(mask, width, seed, i))
}

/// Sum of the weights of those indices below `n` that are members.
pub open spec fn tally(n: nat, members: Set<int>, weight: spec_fn(int) -> int) -> int
    decreases n,
{
    if n == 0 {
        0
    } else {
        tally((n - 1) as nat, members, weight) + if members.contains(n - 1) {
            weight(n - 1)
        } else {
            0
        }
    }
}

/// Weight one for every pixel.
pub open spec fn unit() -> spec_fn(int) -> int {
    |i: int| 1
}

/// The column of a pixel as its weight.
pub open spec fn columns(width: int) -> spec_fn(int) -> int {
    |i: int| column(width, i)
}

/// The row of a pixel as its weight.
pub open spec fn rows(width: int) -> spec_fn(int) -> int {
    |i: int| row(width, i)
}

/// Number of pixels in the region of `seed`.
pub open spec fn region_area(mask: Seq<u8>, width: int, seed: int) -> int {
    tally(mask.len(), region(mask, width, seed), unit())
}

/// Sum of the columns of the pixels in the region of `seed`.
pub open spec fn region_sum_x(mask: Seq<u8>, width: int, seed: int) -> int {
    tally(mask.len(), region(mask, width, seed), columns(width))
}

/// Sum of the rows of the pixels in the region of `seed`.
pub open spec fn region_sum_y(mask: Seq<u8>, width: int, seed: int) -> int {
    tally(mask.len(), region(mask, width, seed), rows(width))
}

/// The pixel at index `i` is on the mask and set.
pub open spec fn is_set(mask: Seq<u8>, i: int) -> bool {
    0 <= i < mask.len() && mask[i] != 0
}

/// `seed` is the first pixel in scan order of the region with the greatest
/// area, among regions of at least `min_area` pixels; of regions that are
/// equally large it is the one that the scan meets first.
pub open spec fn leads_largest(mask: Seq<u8>, width: int, min_area: int, seed: int) -> bool {
    &&& is_set(mask, seed)
    &&& region_area(mask, width, seed) >= min_area
    &&& forall|i: int| #[trigger]
        is_set(mask, i) ==> region_area(mask, width, i) <= region_area(mask, width, seed)
    &&& forall|i: int|
        i < seed && #[trigger] is_set(mask, i) ==> region_area(mask, width, i) < region_area(
            mask,
            width,
            seed,
        )
}

/// No region has `min_area` pixels.
pub open spec fn all_small(mask: Seq<u8>, width: int, min_area: int) -> bool {
    forall|i: int| #[trigger] is_set(mask, i) ==> region_area(mask, width, i) < min_area
}

/// Area of a region and the sums of its pixels' coordinates; the centroid is
/// `(sum_x / area, sum_y / area)`.
#[derive(Clone, Copy, PartialEq, Eq, Structural, Debug)]
pub struct Blob {
    pub area: usize,
    pub sum_x: u128,
    pub sum_y: u128,
}

/// The blob describes the region of `seed`.
pub open spec fn describes(blob: Blob, mask: Seq<u8>, width: int, seed: int) -> bool {
    &&& blob.area == region_area(mask, width, seed)
    &&& blob.sum_x == region_sum_x(mask, width, seed)
    &&& blob.sum_y == region_sum_y(mask, width, seed)
}

/// The outcome of a search for the largest region of at least `min_area` pixels.
pub open spec fn is_largest_blob(
    found: Option<Blob>,
    mask: Seq<u8>,
    width: int,
    min_area: int,
) -> bool {
    match found {
        None => all_small(mask, width, min_area),
        Some(blob) => exists|seed: int| #[trigger]
            leads_largest(mask, width, min_area, seed) && describes(blob, mask, width, seed),
    }
}

proof fn lemma_connected_self(mask: Seq<u8>, width: int, a: int)
    requires
        is_set(mask, a),
    ensures
        connected(mask, width, a, a),
{
    let walk = seq![a];
    assert(is_walk(mask, width, walk) && walk.first() == a && walk.last() == a);
}

proof fn lemma_connected_step(mask: Seq<u8>, width: int, a: int, b: int, c: int)
    requires
        connected(mask, width, a, b),
        linked(mask, width, b, c),
    ensures
        connected(mask, width, a, c),
{
    let walk = choose|walk: Seq<int>| #[trigger]
        is_walk(mask, width, walk) && walk.first() == a && walk.last() == b;
    let longer = walk.push(c);
    assert(is_walk(mask, width, longer) && longer.first() == a && longer.last() == c);
}

proof fn lemma_connected_back(mask: Seq<u8>, width: int, a: int, b: int)
    requires
        connected(mask, width, a, b),
    ensures
        connected(mask, width, b, a),
{
    let walk = choose|walk: Seq<int>| #[trigger]
        is_walk(mask, width, walk) && walk.first() == a && walk.last() == b;
    let back = walk.reverse();
    assert forall|k: int| 0 < k < back.len() implies touching(width, back[k - 1], #[trigger] back[k]) by {
        let m = walk.len() - k;
        assert(back[k - 1] == walk[m]);
        assert(back[k] == walk[m - 1]);
        assert(touching(width, walk[m - 1], walk[m]));
    }
    assert(is_walk(mask, width, back) && back.first() == b && back.last() == a);
}

proof fn lemma_connected_chain(mask: Seq<u8>, width: int, a: int, b: int, c: int)
    requires
        connected(mask, width, a, b),
        connected(mask, width, b, c),
    ensures
        connected(mask, width, a, c),
{
    let first = choose|walk: Seq<int>| #[trigger]
        is_walk(mask, width, walk) && walk.first() == a && walk.last() == b;
    let second = choose|walk: Seq<int>| #[trigger]
        is_walk(mask, width, walk) && walk.first() == b && walk.last() == c;
    let joined = first + second;
    assert forall|k: int| 0 < k < joined.len() implies touching(
        width,
        joined[k - 1],
        #[trigger] joined[k],
    ) by {
        if k < first.len() {
            assert(joined[k] == first[k]);
        } else if k > first.len() {
            assert(joined[k] == second[k - first.len()]);
            assert(joined[k - 1] == second[k - first.len() - 1]);
        }
    }
    assert(is_walk(mask, width, joined) && joined.first() == a && joined.last() == c);
}

/// A set that holds the start of a walk and, with each pixel, all pixels linked
/// to it, holds the whole walk.
proof fn lemma_walk_stays_inside(
    mask: Seq<u8>,
    width: int,
    inside: Set<int>,
    walk: Seq<int>,
    k: int,
)
    requires
        is_walk(mask, width, walk),
        0 <= k < walk.len(),
        inside.contains(walk[0]),
        forall|i: int, j: int| inside.contains(i) && #[trigger] linked(mask, width, i, j) ==> inside.contains(j),
    ensures
        inside.contains(walk[k]),
    decreases k,
{
    if k > 0 {
        lemma_walk_stays_inside(mask, width, inside, walk, k - 1);
        assert(linked(mask, width, walk[k - 1], walk[k]));
    }
}

proof fn lemma_region_inside(mask: Seq<u8>, width: int, inside: Set<int>, a: int, b: int)
    requires
        connected(mask, width, a, b),
        inside.contains(a),
        forall|i: int, j: int| inside.contains(i) && #[trigger] linked(mask, width, i, j) ==> inside.contains(j),
    ensures
        inside.contains(b),
{
    let walk = choose|walk: Seq<int>| #[trigger]
        is_walk(mask, width, walk) && walk.first() == a && walk.last() == b;
    lemma_walk_stays_inside(mask, width, inside, walk, walk.len() - 1);
}

/// Connected pixels have the same region.
pub proof fn lemma_same_region(mask: Seq<u8>, width: int, a: int, b: int)
    requires
        connected(mask, width, a, b),
    ensures
        region(mask, width, a) == region(mask, width, b),
{
    lemma_connected_back(mask, width, a, b);
    assert forall|i: int| #[trigger] connected(mask, width, a, i) == connected(mask, width, b, i) by {
        if connected(mask, width, a, i) {
            lemma_connected_chain(mask, width, b, a, i);
        }
        if connected(mask, width, b, i) {
            lemma_connected_chain(mask, width, a, b, i);
        }
    }
    assert(region(mask, width, a) =~= region(mask, width, b));
}

proof fn lemma_connected_is_set(mask: Seq<u8>, width: int, a: int, b: int)
    requires
        connected(mask, width, a, b),
    ensures
        is_set(mask, a),
        is_set(mask, b),
{
    let walk = choose|walk: Seq<int>| #[trigger]
        is_walk(mask, width, walk) && walk.first() == a && walk.last() == b;
    assert(is_set(mask, walk[0]));
    assert(is_set(mask, walk[walk.len() - 1]));
}

proof fn lemma_tally_empty(n: nat, weight: spec_fn(int) -> int)
    ensures
        tally(n, Set::empty(), weight) == 0,
    decreases n,
{
    if n > 0 {
        lemma_tally_empty((n - 1) as nat, weight);
    }
}

proof fn lemma_tally_insert(n: nat, members: Set<int>, weight: spec_fn(int) -> int, i: int)
    requires
        !members.contains(i),
    ensures
        tally(n, members.insert(i), weight) == tally(n, members, weight) + if 0 <= i < n {
            weight(i)
        } else {
            0
        },
    decreases n,
{
    if n > 0 {
        lemma_tally_insert((n - 1) as nat, members, weight, i);
    }
}

proof fn lemma_tally_bound(n: nat, members: Set<int>, weight: spec_fn(int) -> int, most: int)
    requires
        most >= 0,
        forall|i: int| 0 <= i < n ==> 0 <= #[trigger] weight(i) <= most,
    ensures
        0 <= tally(n, members, weight) <= n * most,
    decreases n,
{
    if n > 0 {
        lemma_tally_bound((n - 1) as nat, members, weight, most);
        assert((n - 1) * most + most == n * most) by (nonlinear_arith);
    } else {
        assert(n * most == 0) by (nonlinear_arith)
            requires
                n == 0,
        ;
    }
}

/// Marks and stacks every unvisited pixel that is linked to `current`.
fn push_neighbours(
    mask: &Vec<u8>,
    width: usize,
    height: usize,
    visited: &mut Vec<u8>,
    stack: &mut Vec<usize>,
    current: usize,
)
    requires
        mask@.len() == width * height,
        old(visited)@.len() == mask@.len(),
        is_set(mask@, current as int),
    ensures
        final(visited)@.len() == mask@.len(),
        forall|i: int|
            0 <= i < mask@.len() ==> (#[trigger] final(visited)@[i] == 1 <==> old(visited)@[i] == 1
                || linked(mask@, width as int, current as int, i)),
        old(stack)@.len() <= final(stack)@.len(),
        final(stack)@.subrange(0, old(stack)@.len() as int) == old(stack)@,
        forall|k: int|
            old(stack)@.len() <= k < final(stack)@.len() ==> linked(
                mask@,
                width as int,
                current as int,
                #[trigger] final(stack)@[k] as int,
            ) && old(visited)@[final(stack)@[k] as int] != 1,
        forall|k: int, l: int|
            old(stack)@.len() <= k < l < final(stack)@.len() ==> final(stack)@[k] != final(stack)@[l],
        forall|i: int|
            0 <= i < mask@.len() && #[trigger] final(visited)@[i] == 1 && old(visited)@[i] != 1
                ==> final(stack)@.contains(i as usize),
{
    let ghost w = width as int;
    let ghost h = height as int;
    let ghost n = mask@.len();
    let ghost c = current as int;
    let ghost before = visited@;
    let ghost below = stack@;
    assert(mask@.len() == mask.len());
    proof {
        assert(width > 0) by (nonlinear_arith)
            requires
                0 < width * height,
                width >= 0,
        ;
        lemma_coordinates(w, c);
        lemma_row_in_grid(w, h, c);
    }
    let x: usize = current % width;
    let y: usize = current / width;
    let min_x: usize = if x > 0 {
        x - 1
    } else {
        0
    };
    let max_x: usize = if x < width - 1 {
        x + 1
    } else {
        width - 1
    };
    let min_y: usize = if y > 0 {
        y - 1
    } else {
        0
    };
    let max_y: usize = if y < height - 1 {
        y + 1
    } else {
        height - 1
    };
    let mut ny: usize = min_y;
    while ny <= max_y
        invariant
            w == width,
            h == height,
            n == mask@.len(),
            n == w * h,
            n <= usize::MAX,
            c == current,
            is_set(mask@, c),
            w > 0,
            x == column(w, c),
            y == row(w, c),
            0 <= x < width,
            0 <= y < height,
            min_x == if x > 0 { x - 1 } else { 0 },
            max_x == if x < width - 1 { x + 1 } else { width - 1 },
            min_y == if y > 0 { y - 1 } else { 0 },
            max_y == if y < height - 1 { y + 1 } else { height - 1 },
            min_y <= ny <= max_y + 1,
            before.len() == n,
            visited@.len() == n,
            forall|i: int|
                0 <= i < n ==> (#[trigger] visited@[i] == 1 <==> before[i] == 1 || (linked(
                    mask@,
                    w,
                    c,
                    i,
                ) && row(w, i) < ny)),
            below.len() <= stack@.len(),
            stack@.subrange(0, below.len() as int) == below,
            forall|k: int|
                below.len() <= k < stack@.len() ==> linked(mask@, w, c, #[trigger] stack@[k] as int)
                    && before[stack@[k] as int] != 1 && visited@[stack@[k] as int] == 1,
            forall|k: int, l: int|
                below.len() <= k < l < stack@.len() ==> stack@[k] != stack@[l],
            forall|i: int|
                0 <= i < n && #[trigger] visited@[i] == 1 && before[i] != 1 ==> stack@.contains(
                    i as usize,
                ),
        decreases max_y + 1 - ny,
    {
        let mut nx: usize = min_x;
        while nx <= max_x
            invariant
                w == width,
                h == height,
                n == mask@.len(),
                n == w * h,
                n <= usize::MAX,
                c == current,
                is_set(mask@, c),
                w > 0,
                x == column(w, c),
                y == row(w, c),
                0 <= x < width,
                0 <= y < height,
                min_x == if x > 0 { x - 1 } else { 0 },
                max_x == if x < width - 1 { x + 1 } else { width - 1 },
                min_y == if y > 0 { y - 1 } else { 0 },
                max_y == if y < height - 1 { y + 1 } else { height - 1 },
                min_y <= ny <= max_y,
                min_x <= nx <= max_x + 1,
                before.len() == n,
                visited@.len() == n,
                forall|i: int|
                    0 <= i < n ==> (#[trigger] visited@[i] == 1 <==> before[i] == 1 || (linked(
                        mask@,
                        w,
                        c,
                        i,
                    ) && (row(w, i) < ny || (row(w, i) == ny && column(w, i) < nx)))),
                below.len() <= stack@.len(),
                stack@.subrange(0, below.len() as int) == below,
                forall|k: int|
                    below.len() <= k < stack@.len() ==> linked(
                        mask@,
                        w,
                        c,
                        #[trigger] stack@[k] as int,
                    ) && before[stack@[k] as int] != 1 && visited@[stack@[k] as int] == 1,
                forall|k: int, l: int|
                    below.len() <= k < l < stack@.len() ==> stack@[k] != stack@[l],
                forall|i: int|
                    0 <= i < n && #[trigger] visited@[i] == 1 && before[i] != 1 ==> stack@.contains(
                        i as usize,
                    ),
            decreases max_x + 1 - nx,
        {
            proof {
                lemma_index_in_grid(w, h, nx as int, ny as int);
                lemma_pixel(w, nx as int, ny as int);
            }
            let next: usize = ny * width + nx;
            assert(touching(w, c, next as int));
            let ghost seen = visited@;
            let ghost held = stack@;
            assert forall|i: int| 0 <= i < n && row(w, i) == ny && column(w, i) == nx implies i
                == next by {
                lemma_coordinates(w, i);
            }
            if mask[next] != 0 && visited[next] != 1 {
                visited[next] = 1;
                stack.push(next);
                assert(stack@.subrange(0, below.len() as int) =~= held.subrange(
                    0,
                    below.len() as int,
                ));
                assert forall|i: int|
                    0 <= i < n && #[trigger] visited@[i] == 1 && before[i]
                        != 1 implies stack@.contains(i as usize) by {
                    if i == next {
                        assert(stack@[held.len() as int] == next);
                    } else {
                        assert(seen[i] == 1);
                        let k = choose|k: int| 0 <= k < held.len() && held[k] == i as usize;
                        assert(stack@[k] == i as usize);
                    }
                }
            }
            nx += 1;
        }
        assert forall|i: int| 0 <= i < n && linked(mask@, w, c, i) && row(w, i) == ny implies column(
            w,
            i,
        ) < nx by {
            lemma_coordinates(w, i);
        }
        ny += 1;
    }
    assert forall|i: int| 0 <= i < n && linked(mask@, w, c, i) implies row(w, i) < ny by {
        lemma_row_in_grid(w, h, i);
    }
}

/// The visited pixels are set, and all pixels linked to them are visited too.
pub open spec fn visited_closed(mask: Seq<u8>, width: int, visited: Seq<u8>) -> bool {
    &&& visited.len() == mask.len()
    &&& forall|i: int| 0 <= i < mask.len() && #[trigger] visited[i] == 1 ==> mask[i] != 0
    &&& forall|i: int, j: int| #[trigger]
        linked(mask, width, i, j) && visited[i] == 1 ==> visited[j] == 1
}

/// Nothing of the region of an unvisited pixel has been visited.
proof fn lemma_region_unvisited(mask: Seq<u8>, width: int, visited: Seq<u8>, seed: int, i: int)
    requires
        visited_closed(mask, width, visited),
        is_set(mask, seed),
        visited[seed] != 1,
        connected(mask, width, seed, i),
    ensures
        visited[i] != 1,
{
    if visited[i] == 1 {
        let inside = Set::new(|j: int| 0 <= j < mask.len() && visited[j] == 1);
        lemma_connected_is_set(mask, width, seed, i);
        lemma_connected_back(mask, width, seed, i);
        lemma_region_inside(mask, width, inside, i, seed);
    }
}

/// Visits the region of `seed` and measures it.
fn flood(
    mask: &Vec<u8>,
    width: usize,
    height: usize,
    visited: &mut Vec<u8>,
    stack: &mut Vec<usize>,
    seed: usize,
) -> (blob: Blob)
    requires
        mask@.len() == width * height,
        visited_closed(mask@, width as int, old(visited)@),
        is_set(mask@, seed as int),
        old(visited)@[seed as int] != 1,
    ensures
        describes(blob, mask@, width as int, seed as int),
        visited_closed(mask@, width as int, final(visited)@),
        forall|i: int|
            0 <= i < mask@.len() ==> (#[trigger] final(visited)@[i] == 1 <==> old(visited)@[i] == 1
                || connected(mask@, width as int, seed as int, i)),
{
    let ghost w = width as int;
    let ghost n = mask@.len();
    let ghost s = seed as int;
    let ghost before = visited@;
    let ghost mut done: Set<int> = Set::empty();
    assert(mask@.len() == mask.len());
    proof {
        assert(width > 0) by (nonlinear_arith)
            requires
                0 < width * height,
                width >= 0,
        ;
        lemma_tally_empty(n, unit());
        lemma_tally_empty(n, columns(w));
        lemma_tally_empty(n, rows(w));
        lemma_connected_self(mask@, w, s);
        lemma_region_unvisited(mask@, w, before, s, s);
    }
    stack.clear();
    stack.push(seed);
    visited[seed] = 1;
    assert(stack@[0] == seed);
    let mut area: usize = 0;
    let mut sum_x: u128 = 0;
    let mut sum_y: u128 = 0;
    while stack.len() > 0
        invariant
            w == width,
            w > 0,
            n == mask@.len(),
            n == width * height,
            n <= usize::MAX,
            s == seed,
            is_set(mask@, s),
            before[s] != 1,
            visited_closed(mask@, w, before),
            visited@.len() == n,
            visited@[s] == 1,
            forall|i: int|
                0 <= i < n ==> (#[trigger] visited@[i] == 1 <==> before[i] == 1 || done.contains(i)
                    || stack@.contains(i as usize)),
            forall|i: int| #[trigger]
                done.contains(i) ==> 0 <= i < n && before[i] != 1 && connected(mask@, w, s, i),
            forall|k: int|
                0 <= k < stack@.len() ==> #[trigger] stack@[k] < n && before[stack@[k] as int] != 1
                    && !done.contains(stack@[k] as int) && connected(mask@, w, s, stack@[k] as int),
            forall|k: int, l: int| 0 <= k < l < stack@.len() ==> stack@[k] != stack@[l],
            forall|i: int, j: int|
                done.contains(i) && #[trigger] linked(mask@, w, i, j) ==> visited@[j] == 1,
            area == tally(n, done, unit()),
            sum_x == tally(n, done, columns(w)),
            sum_y == tally(n, done, rows(w)),
        decreases n - area,
    {
        let ghost held = stack@;
        let ghost seen = visited@;
        let ghost finished = done;
        let current: usize = match stack.pop() {
            Some(top) => top,
            None => seed,
        };
        let ghost c = current as int;
        assert(held[held.len() - 1] == current);
        proof {
            lemma_connected_is_set(mask@, w, s, c);
            lemma_coordinates(w, c);
            done = finished.insert(c);
            lemma_tally_insert(n, finished, unit(), c);
            lemma_tally_insert(n, finished, columns(w), c);
            lemma_tally_insert(n, finished, rows(w), c);
            lemma_tally_bound(n, done, unit(), 1);
            assert forall|i: int| 0 <= i < n implies 0 <= #[trigger] columns(w)(i) <= w by {
                lemma_coordinates(w, i);
            }
            lemma_tally_bound(n, done, columns(w), w);
            assert forall|i: int| 0 <= i < n implies 0 <= #[trigger] rows(w)(i) <= height by {
                lemma_row_in_grid(w, height as int, i);
            }
            lemma_tally_bound(n, done, rows(w), height as int);
            assert(n * w <= u128::MAX) by (nonlinear_arith)
                requires
                    0 <= n <= usize::MAX,
                    0 <= w <= usize::MAX,
            ;
            assert(n * height <= u128::MAX) by (nonlinear_arith)
                requires
                    0 <= n <= usize::MAX,
                    0 <= height <= usize::MAX,
            ;
        }
        area += 1;
        sum_x += (current % width) as u128;
        sum_y += (current / width) as u128;
        let ghost rest = stack@;
        push_neighbours(mask, width, height, visited, stack, current);
        assert(forall|k: int| 0 <= k < rest.len() ==> rest[k] == held[k]);
        assert(forall|k: int| 0 <= k < rest.len() ==> stack@[k] == rest[k]) by {
            assert(stack@.subrange(0, rest.len() as int) == rest);
            assert forall|k: int| 0 <= k < rest.len() implies stack@[k] == rest[k] by {
                assert(stack@.subrange(0, rest.len() as int)[k] == stack@[k]);
            }
        }
        assert forall|i: int| 0 <= i < n implies (#[trigger] visited@[i] == 1 <==> before[i] == 1
            || done.contains(i) || stack@.contains(i as usize)) by {
            if visited@[i] == 1 && seen[i] == 1 && before[i] != 1 && !done.contains(i) {
                let k = choose|k: int| 0 <= k < held.len() && held[k] == i as usize;
                assert(k < rest.len());
                assert(stack@[k] == i as usize);
            }
            if stack@.contains(i as usize) {
                let k = choose|k: int| 0 <= k < stack@.len() && stack@[k] == i as usize;
                if k < rest.len() {
                    assert(held[k] == i as usize);
                    assert(held.contains(i as usize));
                    assert(seen[i] == 1);
                }
            }
            if i == c {
                assert(held.contains(current));
                assert(seen[c] == 1);
            }
        }
        assert forall|k: int| 0 <= k < stack@.len() implies #[trigger] stack@[k] < n
            && before[stack@[k] as int] != 1 && !done.contains(stack@[k] as int) && connected(
            mask@,
            w,
            s,
            stack@[k] as int,
        ) by {
            if k < rest.len() {
                assert(held[k] != held[held.len() - 1]);
            } else {
                let j = stack@[k] as int;
                assert(linked(mask@, w, c, j));
                assert(seen[j] != 1);
                lemma_connected_step(mask@, w, s, c, j);
                assert(held.contains(current));
                assert(seen[c] == 1);
            }
        }
        assert forall|k: int, l: int| 0 <= k < l < stack@.len() implies stack@[k] != stack@[l] by {
            if l < rest.len() {
                assert(held[k] != held[l]);
            } else if k < rest.len() {
                assert(held.contains(held[k]));
                assert(seen[held[k] as int] == 1);
                assert(seen[stack@[l] as int] != 1);
            }
        }
    }
    proof {
        assert forall|i: int| 0 <= i < n && connected(mask@, w, s, i) implies done.contains(i) by {
            assert forall|a: int, b: int|
                done.contains(a) && #[trigger] linked(mask@, w, a, b) implies done.contains(b) by {
                lemma_connected_step(mask@, w, s, a, b);
                lemma_region_unvisited(mask@, w, before, s, b);
            }
            lemma_region_inside(mask@, w, done, s, i);
        }
        assert forall|i: int| done.contains(i) == region(mask@, w, s).contains(i) by {
            if connected(mask@, w, s, i) {
                lemma_connected_is_set(mask@, w, s, i);
            }
        }
        assert(done =~= region(mask@, w, s));
        assert forall|i: int, j: int| #[trigger]
            linked(mask@, w, i, j) && visited@[i] == 1 implies visited@[j] == 1 by {
            if before[i] == 1 {
                assert(before[j] == 1);
            }
        }
        assert forall|i: int| 0 <= i < n && #[trigger] visited@[i] == 1 implies mask@[i] != 0 by {
            if before[i] != 1 {
                lemma_connected_is_set(mask@, w, s, i);
            }
        }
    }
    Blob { area, sum_x, sum_y }
}

/// Finds the largest region of at least `min_area` pixels; of equally large
/// regions, the one whose first pixel comes first in scan order. `visited` and
/// `stack` are working space.
pub fn largest_region(
    mask: &Vec<u8>,
    width: usize,
    height: usize,
    min_area: usize,
    visited: &mut Vec<u8>,
    stack: &mut Vec<usize>,
) -> (found: Option<Blob>)
    requires
        mask@.len() == width * height,
        old(visited)@.len() == mask@.len(),
    ensures
        is_largest_blob(found, mask@, width as int, min_area as int),
        found == largest_blob_in(mask@, width as int, min_area as int),
        final(visited)@.len() == mask@.len(),
{
    let ghost w = width as int;
    let ghost n = mask@.len();
    clear_bytes(visited.as_mut_slice());
    let len = mask.len();
    let mut best: Option<Blob> = None;
    let ghost mut leader: int = 0;
    let mut idx: usize = 0;
    while idx < len
        invariant
            w == width,
            n == mask@.len(),
            n == width * height,
            len == n,
            idx <= len,
            visited_closed(mask@, w, visited@),
            forall|i: int| 0 <= i < idx && #[trigger] is_set(mask@, i) ==> visited@[i] == 1,
            forall|i: int|
                0 <= i < n && #[trigger] visited@[i] == 1 ==> exists|t: int|
                    0 <= t < idx && #[trigger] connected(mask@, w, t, i),
            best is None ==> forall|i: int|
                0 <= i < idx && #[trigger] is_set(mask@, i) ==> region_area(mask@, w, i) < min_area,
            best matches Some(blob) ==> {
                &&& 0 <= leader < idx
                &&& is_set(mask@, leader)
                &&& describes(blob, mask@, w, leader)
                &&& blob.area >= min_area
                &&& forall|i: int|
                    0 <= i < idx && #[trigger] is_set(mask@, i) ==> region_area(mask@, w, i)
                        <= blob.area
                &&& forall|i: int|
                    0 <= i < leader && #[trigger] is_set(mask@, i) ==> region_area(mask@, w, i)
                        < blob.area
            },
        decreases len - idx,
    {
        let ghost i0 = idx as int;
        if mask[idx] != 0 {
            if visited[idx] == 1 {
                proof {
                    let t = choose|t: int| 0 <= t < idx && #[trigger] connected(mask@, w, t, i0);
                    lemma_same_region(mask@, w, t, i0);
                    lemma_connected_is_set(mask@, w, t, i0);
                    assert(is_set(mask@, t));
                }
            } else {
                let ghost seen = visited@;
                let candidate = flood(mask, width, height, visited, stack, idx);
                proof {
                    lemma_connected_self(mask@, w, i0);
                    assert forall|i: int| 0 <= i < n && #[trigger] visited@[i] == 1 implies exists|
                        t: int,
                    | 0 <= t < i0 + 1 && #[trigger] connected(mask@, w, t, i) by {
                        if seen[i] == 1 {
                            let t = choose|t: int| 0 <= t < i0 && #[trigger] connected(mask@, w, t, i);
                            assert(connected(mask@, w, t, i));
                        }
                    }
                }
                if candidate.area >= min_area {
                    let replaces = match best {
                        Some(current) => candidate.area > current.area,
                        None => true,
                    };
                    if replaces {
                        best = Some(candidate);
                        proof {
                            leader = i0;
                        }
                    }
                }
            }
        }
        assert(mask@[i0] != 0 ==> is_set(mask@, i0));
        idx += 1;
    }
    proof {
        if best is Some {
            assert(leads_largest(mask@, w, min_area as int, leader));
        }
        assert(is_largest_blob(best, mask@, w, min_area as int));
        law_largest_is_unique(
            best,
            largest_blob_in(mask@, w, min_area as int),
            mask@,
            w,
            min_area as int,
        );
    }
    best
}

/// The largest region of at least `min_area` pixels, if there is one.
pub open spec fn largest_blob_in(mask: Seq<u8>, width: int, min_area: int) -> Option<Blob> {
    choose|found: Option<Blob>| is_largest_blob(found, mask, width, min_area)
}

/// A mask has only one largest region, or none.
pub proof fn law_largest_is_unique(
    a: Option<Blob>,
    b: Option<Blob>,
    mask: Seq<u8>,
    width: int,
    min_area: int,
)
    requires
        is_largest_blob(a, mask, width, min_area),
        is_largest_blob(b, mask, width, min_area),
    ensures
        a == b,
{
    if a is Some && b is Some {
        let s = choose|seed: int| #[trigger]
            leads_largest(mask, width, min_area, seed) && describes(a->0, mask, width, seed);
        let t = choose|seed: int| #[trigger]
            leads_largest(mask, width, min_area, seed) && describes(b->0, mask, width, seed);
        assert(is_set(mask, s));
        assert(is_set(mask, t));
    } else if a is Some {
        let s = choose|seed: int| #[trigger]
            leads_largest(mask, width, min_area, seed) && describes(a->0, mask, width, seed);
        assert(is_set(mask, s));
    } else if b is Some {
        let t = choose|seed: int| #[trigger]
            leads_largest(mask, width, min_area, seed) && describes(b->0, mask, width, seed);
        assert(is_set(mask, t));
    }
}

/// Among the first `n` pixels no region has `min_area` pixels, or one leads the
/// largest of them.
proof fn lemma_leader_exists(mask: Seq<u8>, width: int, min_area: int, n: int) -> (leader: Option<
    int,
>)
    requires
        0 <= n <= mask.len(),
    ensures
        match leader {
            Some(seed) => {
                &&& seed < n
                &&& is_set(mask, seed)
                &&& region_area(mask, width, seed) >= min_area
                &&& forall|i: int|
                    i < n && #[trigger] is_set(mask, i) ==> region_area(mask, width, i)
                        <= region_area(mask, width, seed)
                &&& forall|i: int|
                    i < seed && #[trigger] is_set(mask, i) ==> region_area(mask, width, i)
                        < region_area(mask, width, seed)
            },
            None => forall|i: int|
                i < n && #[trigger] is_set(mask, i) ==> region_area(mask, width, i) < min_area,
        },
    decreases n,
{
    if n == 0 {
        None
    } else {
        let before = lemma_leader_exists(mask, width, min_area, n - 1);
        let area = region_area(mask, width, n - 1);
        let leads = is_set(mask, n - 1) && area >= min_area && match before {
            Some(seed) => area > region_area(mask, width, seed),
            None => true,
        };
        if leads {
            Some(n - 1)
        } else {
            before
        }
    }
}

/// Every mask of a grid that fits the address space has a largest region, or none
/// that is large enough, and that is what is named the largest region.
pub proof fn law_largest_exists(mask: Seq<u8>, width: int, height: int, min_area: int)
    requires
        0 <= width <= usize::MAX,
        0 <= height <= usize::MAX,
        mask.len() == width * height,
        mask.len() <= usize::MAX,
    ensures
        is_largest_blob(largest_blob_in(mask, width, min_area), mask, width, min_area),
{
    let n = mask.len();
    let found: Option<Blob> = match lemma_leader_exists(mask, width, min_area, n as int) {
        Some(seed) => {
            assert(width > 0) by (nonlinear_arith)
                requires
                    0 < width * height,
                    width >= 0,
            ;
            let members = region(mask, width, seed);
            lemma_tally_bound(n, members, unit(), 1);
            assert forall|i: int| 0 <= i < n implies 0 <= #[trigger] columns(width)(i) <= width by {
                lemma_coordinates(width, i);
            }
            lemma_tally_bound(n, members, columns(width), width);
            assert forall|i: int| 0 <= i < n implies 0 <= #[trigger] rows(width)(i) <= height by {
                lemma_row_in_grid(width, height, i);
            }
            lemma_tally_bound(n, members, rows(width), height);
            assert(n * width <= u128::MAX && n * height <= u128::MAX) by (nonlinear_arith)
                requires
                    0 <= n <= usize::MAX,
                    0 <= width <= usize::MAX,
                    0 <= height <= usize::MAX,
            ;
            let blob = Blob {
                area: region_area(mask, width, seed) as usize,
                sum_x: region_sum_x(mask, width, seed) as u128,
                sum_y: region_sum_y(mask, width, seed) as u128,
            };
            assert(leads_largest(mask, width, min_area, seed) && describes(
                blob,
                mask,
                width,
                seed,
            ));
            Some(blob)
        },
        None => None,
    };
    assert(is_largest_blob(found, mask, width, min_area));
}

/// A region that is large enough is found: if any region has `min_area` pixels, there is
/// a largest one, it has at least as many, and none has more; and if no region has, there
/// is none.
pub proof fn law_large_enough_is_found(
    mask: Seq<u8>,
    width: int,
    height: int,
    min_area: int,
    seed: int,
)
    requires
        0 <= width <= usize::MAX,
        0 <= height <= usize::MAX,
        mask.len() == width * height,
        mask.len() <= usize::MAX,
        0 <= seed < mask.len(),
        mask[seed] != 0,
    ensures
        ({
            let found = largest_blob_in(mask, width, min_area);
            &&& region_area(mask, width, seed) >= min_area ==> found is Some
            &&& found is Some ==> found->0.area >= min_area && found->0.area >= region_area(
                mask,
                width,
                seed,
            )
            &&& found is None ==> region_area(mask, width, seed) < min_area
        }),
{
    law_largest_exists(mask, width, height, min_area);
    assert(is_set(mask, seed));
}

/// What is found is a region of the mask: its area and its sums are those of the region
/// of some pixel that is set, and no pixel before that one belongs to a region that is
/// as large.
pub proof fn law_found_is_a_region(mask: Seq<u8>, width: int, height: int, min_area: int)
    requires
        0 <= width <= usize::MAX,
        0 <= height <= usize::MAX,
        mask.len() == width * height,
        mask.len() <= usize::MAX,
        largest_blob_in(mask, width, min_area) is Some,
    ensures
        ({
            let blob = largest_blob_in(mask, width, min_area)->0;
            exists|seed: int|
                0 <= seed < mask.len() && mask[seed] != 0 && blob.area == #[trigger] region_area(
                    mask,
                    width,
                    seed,
                ) && blob.sum_x == region_sum_x(mask, width, seed) && blob.sum_y == region_sum_y(
                    mask,
                    width,
                    seed,
                ) && forall|i: int|
                    0 <= i < seed && mask[i] != 0 ==> #[trigger] region_area(mask, width, i)
                        < blob.area
        }),
{
    law_largest_exists(mask, width, height, min_area);
    let blob = largest_blob_in(mask, width, min_area)->0;
    let seed = choose|seed: int| #[trigger]
        leads_largest(mask, width, min_area, seed) && describes(blob, mask, width, seed);
    assert forall|i: int| 0 <= i < seed && mask[i] != 0 implies #[trigger] region_area(
        mask,
        width,
        i,
    ) < blob.area by {
        assert(is_set(mask, i));
    }
}

/// The region of a set pixel is the smallest set that holds the pixel and, with each
/// pixel, every set pixel that touches it.
pub proof fn law_region_is_the_smallest_closed_set(
    mask: Seq<u8>,
    width: int,
    seed: int,
    closed: Set<int>,
    a: int,
    b: int,
)
    requires
        0 <= seed < mask.len(),
        mask[seed] != 0,
        closed.contains(seed),
        forall|i: int, j: int|
            0 <= i < mask.len() && 0 <= j < mask.len() && mask[j] != 0 && closed.contains(i)
                && #[trigger] touching(width, i, j) ==> closed.contains(j),
    ensures
        region(mask, width, seed).contains(seed),
        region(mask, width, seed).contains(a) ==> 0 <= a < mask.len() && mask[a] != 0,
        region(mask, width, seed).contains(a) ==> closed.contains(a),
        region(mask, width, seed).contains(a) && 0 <= b < mask.len() && mask[b] != 0 && touching(
            width,
            a,
            b,
        ) ==> region(mask, width, seed).contains(b),
{
    lemma_connected_self(mask, width, seed);
    if connected(mask, width, seed, a) {
        lemma_connected_is_set(mask, width, seed, a);
        lemma_region_inside(mask, width, closed, seed, a);
        if 0 <= b < mask.len() && mask[b] != 0 && touching(width, a, b) {
            assert(linked(mask, width, a, b));
            lemma_connected_step(mask, width, seed, a, b);
        }
    }
}

proof fn lemma_tally_counts(n: nat, members: Set<int>)
    requires
        forall|i: int| members.contains(i) ==> 0 <= i < n,
    ensures
        members.finite(),
        tally(n, members, unit()) == members.len(),
    decreases n,
{
    if n == 0 {
        assert(members =~= Set::empty());
    } else {
        let rest = members.remove(n - 1);
        lemma_tally_counts((n - 1) as nat, rest);
        if members.contains(n - 1) {
            lemma_tally_insert(n, rest, unit(), n - 1);
            assert(rest.insert(n - 1) =~= members);
            assert(unit()(n - 1) == 1);
        } else {
            assert(rest =~= members);
        }
    }
}

/// The area of a region is the number of its pixels.
pub proof fn law_area_counts_pixels(mask: Seq<u8>, width: int, seed: int)
    ensures
        region(mask, width, seed).finite(),
        region_area(mask, width, seed) == region(mask, width, seed).len(),
{
    assert forall|i: int| region(mask, width, seed).contains(i) implies 0 <= i < mask.len() by {
        lemma_connected_is_set(mask, width, seed, i);
    }
    lemma_tally_counts(mask.len(), region(mask, width, seed));
}

/// The sums of a region add up pixel by pixel: a pixel that belongs to it counts with
/// its column and its row, one that does not counts for nothing.
pub proof fn law_sums_add_up(width: int, members: Set<int>, x: int, y: int)
    requires
        0 <= x < width,
        0 <= y,
    ensures
        ({
            let i = y * width + x;
            let n = i as nat;
            &&& i >= 0
            &&& members.contains(i) ==> {
                &&& tally(n + 1, members, columns(width)) == tally(n, members, columns(width)) + x
                &&& tally(n + 1, members, rows(width)) == tally(n, members, rows(width)) + y
            }
            &&& !members.contains(i) ==> {
                &&& tally(n + 1, members, columns(width)) == tally(n, members, columns(width))
                &&& tally(n + 1, members, rows(width)) == tally(n, members, rows(width))
            }
            &&& tally(0, members, columns(width)) == 0 && tally(0, members, rows(width)) == 0
        }),
{
    lemma_index_in_grid(width, y + 1, x, y);
    lemma_pixel(width, x, y);
    let i = y * width + x;
    let n = i as nat;
    assert((n + 1) as nat - 1 == i);
    assert(columns(width)(i) == x);
    assert(rows(width)(i) == y);
}

/// A mask without set pixels has no region.
pub proof fn law_blank_mask_has_no_blob(mask: Seq<u8>, width: int, min_area: int)
    requires
        forall|i: int| 0 <= i < mask.len() ==> #[trigger] mask[i] == 0,
    ensures
        largest_blob_in(mask, width, min_area) is None,
{
    assert(is_largest_blob(None, mask, width, min_area));
    law_largest_is_unique(None, largest_blob_in(mask, width, min_area), mask, width, min_area);
}

proof fn lemma_tally_scaled(
    n: nat,
    members: Set<int>,
    weight: spec_fn(int) -> int,
    most: int,
)
    requires
        forall|i: int| 0 <= i < n ==> 0 <= #[trigger] weight(i) <= most,
    ensures
        0 <= tally(n, members, weight) <= tally(n, members, unit()) * most,
        0 <= tally(n, members, unit()),
    decreases n,
{
    if n > 0 {
        let before = (n - 1) as nat;
        lemma_tally_scaled(before, members, weight, most);
        let count = tally(before, members, unit());
        assert((count + 1) * most == count * most + most) by (nonlinear_arith);
        assert(unit()(n - 1) == 1);
        assert(0 <= weight(n - 1) <= most);
    } else {
        assert(tally(n, members, unit()) * most == 0) by (nonlinear_arith)
            requires
                tally(n, members, unit()) == 0,
        ;
    }
}

/// The centroid of a region lies on the grid: neither mean coordinate exceeds the
/// last column or row.
pub proof fn law_centroid_on_grid(
    blob: Blob,
    mask: Seq<u8>,
    width: int,
    height: int,
    min_area: int,
)
    requires
        mask.len() == width * height,
        0 < width,
        is_largest_blob(Some(blob), mask, width, min_area),
    ensures
        blob.area >= min_area,
        blob.sum_x <= blob.area * (width - 1),
        blob.sum_y <= blob.area * (height - 1),
{
    let seed = choose|seed: int| #[trigger]
        leads_largest(mask, width, min_area, seed) && describes(blob, mask, width, seed);
    let members = region(mask, width, seed);
    assert forall|i: int| 0 <= i < mask.len() implies 0 <= #[trigger] columns(width)(i) <= width
        - 1 by {
        lemma_coordinates(width, i);
    }
    assert forall|i: int| 0 <= i < mask.len() implies 0 <= #[trigger] rows(width)(i) <= height
        - 1 by {
        lemma_row_in_grid(width, height, i);
    }
    lemma_tally_scaled(mask.len(), members, columns(width), width - 1);
    lemma_tally_scaled(mask.len(), members, rows(width), height - 1);
}

} // verus!
