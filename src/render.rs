use vstd::prelude::*;
use crate::palette::{Color, black, color_for, result_color};

verus! {

/// The rows of an image, each seen as a sequence.
pub open spec fn rows_view<T>(rows: Seq<Vec<T>>) -> Seq<Seq<T>> {
    rows.map_values(|row: Vec<T>| row@)
}

/// A list of tiles, each seen as a sequence of rows.
pub open spec fn tiles_view<T>(tiles: Seq<Vec<Vec<T>>>) -> Seq<Seq<Seq<T>>> {
    tiles.map_values(|tile: Vec<Vec<T>>| rows_view(tile@))
}

/// The colors of a tile of escape results, pixel by pixel.
pub open spec fn tile_colors(results: Seq<Seq<Option<u16>>>) -> Seq<Seq<Color>> {
    results.map_values(|row: Seq<Option<u16>>| row.map_values(|e: Option<u16>| result_color(e)))
}

/// The image with the row and the column `center` painted black.
pub open spec fn with_axes(image: Seq<Seq<Color>>, center: int) -> Seq<Seq<Color>> {
    Seq::new(
        image.len(),
        |y: int|
            Seq::new(
                image[y].len(),
                |x: int|
                    if y == center || x == center {
                        black()
                    } else {
                        image[y][x]
                    },
            ),
    )
}

/// Width of each of `count` equal row ranges over `[-half, half)`; the last
/// range also takes what the division leaves over.
pub open spec fn tile_width(half: int, count: int) -> int {
    (2 * half) / count
}

/// Row range `k` of `count` over `[-half, half)`.
pub open spec fn tile_range(half: int, count: int, k: int) -> (int, int) {
    let w = tile_width(half, count);
    (-half + k * w, if k == count - 1 {
        half
    } else {
        -half + (k + 1) * w
    })
}

/// Colors one tile from the escape results of its pixels, row by row.
pub fn do_work(results: &Vec<Vec<Option<u16>>>) -> (r: Vec<Vec<Color>>)
    ensures
        rows_view(r@) == tile_colors(rows_view(results@)),
{
    let mut pixels: Vec<Vec<Color>> = Vec::new();
    let mut y: usize = 0;
    while y < results.len()
        invariant
            y <= results.len(),
            pixels.len() == y,
            forall|j: int| 0 <= j < y ==> #[trigger] pixels@[j]@ == results@[j]@.map_values(
                |e: Option<u16>| result_color(e),
            ),
        decreases results.len() - y,
    {
        let source = &results[y];
        let mut row: Vec<Color> = Vec::new();
        let mut x: usize = 0;
        while x < source.len()
            invariant
                x <= source.len(),
                row.len() == x,
                forall|i: int| 0 <= i < x ==> #[trigger] row@[i] == result_color(source@[i]),
            decreases source.len() - x,
        {
            row.push(color_for(source[x]));
            x = x + 1;
        }
        assert(row@ =~= source@.map_values(|e: Option<u16>| result_color(e)));
        pixels.push(row);
        y = y + 1;
    }
    assert(rows_view(pixels@) =~= tile_colors(rows_view(results@)));
    pixels
}

/// Concatenates tiles, in the order given, into one image.
pub fn merge_tiles(tiles: Vec<Vec<Vec<Color>>>) -> (r: Vec<Vec<Color>>)
    ensures
        rows_view(r@) == tiles_view(tiles@).flatten(),
{
    let mut image: Vec<Vec<Color>> = Vec::new();
    let mut rest = tiles;
    let ghost all = tiles@;
    let mut t: usize = 0;
    let n = rest.len();
    while t < n
        invariant
            n == all.len(),
            t <= n,
            rest@ == all.skip(t as int),
            rows_view(image@) == tiles_view(all.take(t as int)).flatten(),
        decreases n - t,
    {
        let mut tile = rest.remove(0);
        proof {
            assert(all.skip(t + 1) =~= all.skip(t as int).skip(1));
            assert(all.take(t + 1) =~= all.take(t as int).push(tile));
            assert(tiles_view(all.take(t + 1)) =~= tiles_view(all.take(t as int)).push(
                rows_view(tile@),
            ));
            tiles_view(all.take(t as int)).lemma_flatten_push(rows_view(tile@));
        }
        let ghost before = image@;
        let ghost tile_rows = tile@;
        image.append(&mut tile);
        proof {
            assert(rows_view(image@) =~= rows_view(before) + rows_view(tile_rows));
        }
        t = t + 1;
    }
    assert(all.take(n as int) =~= all);
    image
}

/// Splits the rows `[-half, half)` into `count` contiguous ranges of equal
/// width, in ascending order; the last range also takes the remainder.
pub fn partition_rows(half: i32, count: u32) -> (r: Vec<(i32, i32)>)
    requires
        half >= 0,
        count >= 1,
    ensures
        r.len() == count,
        forall|k: int|
            0 <= k < count ==> (#[trigger] r@[k].0 as int, r@[k].1 as int) == tile_range(
                half as int,
                count as int,
                k,
            ),
{
    let h = half as i64;
    let c = count as i64;
    let w: i64 = (2 * h) / c;
    proof {
        assert(c * w <= 2 * h) by (nonlinear_arith)
            requires
                c > 0,
                2 * h >= 0,
                w as int == (2 * h) / (c as int),
        ;
    }
    let mut ranges: Vec<(i32, i32)> = Vec::new();
    let mut k: u32 = 0;
    while k < count
        invariant
            k <= count,
            h == half,
            c == count,
            w == tile_width(half as int, count as int),
            0 <= w,
            c * w <= 2 * h,
            ranges.len() == k,
            forall|j: int|
                0 <= j < k ==> (#[trigger] ranges@[j].0 as int, ranges@[j].1 as int) == tile_range(
                    half as int,
                    count as int,
                    j,
                ),
        decreases count - k,
    {
        let kk = k as i64;
        proof {
            assert(kk * w <= c * w && (kk + 1) * w <= c * w) by (nonlinear_arith)
                requires
                    0 <= kk < c,
                    0 <= w,
            ;
            assert(0 <= kk * w) by (nonlinear_arith)
                requires
                    0 <= kk,
                    0 <= w,
            ;
        }
        let begin = -h + kk * w;
        let end = if k == count - 1 {
            h
        } else {
            -h + (kk + 1) * w
        };
        ranges.push((begin as i32, end as i32));
        k = k + 1;
    }
    ranges
}

/// The row ranges of `partition_rows` tile `[-half, half)`: the first starts
/// at `-half`, each ends where the next begins, none runs backwards, and the
/// last ends at `half`.
pub proof fn lemma_ranges_cover(half: int, count: int)
    requires
        half >= 0,
        count >= 1,
    ensures
        tile_range(half, count, 0).0 == -half,
        tile_range(half, count, count - 1).1 == half,
        forall|k: int|
            0 <= k < count - 1 ==> #[trigger] tile_range(half, count, k).1 == tile_range(
                half,
                count,
                k + 1,
            ).0,
        forall|k: int|
            0 <= k < count ==> #[trigger] tile_range(half, count, k).0 <= tile_range(
                half,
                count,
                k,
            ).1,
{
    let w = tile_width(half, count);
    assert(count * w <= 2 * half && w >= 0) by (nonlinear_arith)
        requires
            count > 0,
            half >= 0,
            w == (2 * half) / count,
    ;
    assert forall|k: int| 0 <= k < count implies #[trigger] tile_range(half, count, k).0
        <= tile_range(half, count, k).1 by {
        assert(k * w <= (k + 1) * w && (k + 1) * w <= count * w) by (nonlinear_arith)
            requires
                0 <= k < count,
                w >= 0,
        ;
    }
}

/// Returns the image with the row and the column `center` painted black,
/// every other pixel as it was.
pub fn draw_axes(image: &Vec<Vec<Color>>, center: usize) -> (r: Vec<Vec<Color>>)
    ensures
        rows_view(r@) == with_axes(rows_view(image@), center as int),
{
    let mut out: Vec<Vec<Color>> = Vec::new();
    let mut y: usize = 0;
    while y < image.len()
        invariant
            y <= image.len(),
            out.len() == y,
            forall|j: int|
                0 <= j < y ==> #[trigger] out@[j]@ == with_axes(rows_view(image@), center as int)[j],
        decreases image.len() - y,
    {
        let source = &image[y];
        let mut row: Vec<Color> = Vec::new();
        let mut x: usize = 0;
        while x < source.len()
            invariant
                x <= source.len(),
                row.len() == x,
                forall|i: int|
                    0 <= i < x ==> #[trigger] row@[i] == (if y == center || i == center {
                        black()
                    } else {
                        source@[i]
                    }),
            decreases source.len() - x,
        {
            if y == center || x == center {
                row.push(Color { r: 0, g: 0, b: 0 });
            } else {
                row.push(source[x]);
            }
            x = x + 1;
        }
        assert(row@ =~= with_axes(rows_view(image@), center as int)[y as int]);
        out.push(row);
        y = y + 1;
    }
    assert(rows_view(out@) =~= with_axes(rows_view(image@), center as int));
    out
}

/// Coloring is indifferent to tiling: coloring the whole grid of escape
/// results at once gives the same image as coloring any split of its rows
/// into contiguous tiles and concatenating the tiles in order.
pub proof fn lemma_tiling(whole: Seq<Seq<Option<u16>>>, tiles: Seq<Seq<Seq<Option<u16>>>>)
    requires
        tiles.flatten() == whole,
    ensures
        tile_colors(whole) == tiles.map_values(|t: Seq<Seq<Option<u16>>>| tile_colors(t)).flatten(),
    decreases tiles.len(),
{
    let colored = tiles.map_values(|t: Seq<Seq<Option<u16>>>| tile_colors(t));
    if tiles.len() == 0 {
        assert(tile_colors(whole) =~= Seq::<Seq<Color>>::empty());
    } else {
        let rest = tiles.drop_first();
        lemma_tiling(rest.flatten(), rest);
        assert(colored.drop_first() =~= rest.map_values(|t: Seq<Seq<Option<u16>>>| tile_colors(t)));
        assert(whole == tiles.first() + rest.flatten());
        assert(tile_colors(whole) =~= tile_colors(tiles.first()) + tile_colors(rest.flatten()));
    }
}

} // verus!
