use vstd::prelude::*;

use crate::geometry::{Bounds, DevicePixels, Point, Size};
use crate::history::{count_set, counter_accumulates};

verus! {

/// Names a texture that its owner allocates once and then updates in place.
#[derive(Clone, Copy, Debug, PartialEq, Eq, Structural)]
pub struct DynamicTextureId(pub u32);

/// What a tile of the atlas was rendered from.
///
/// Glyphs, SVGs and images are named by the identifier that the renderer gave
/// their render parameters; a dynamic texture by its own id.
#[derive(Clone, Copy, Debug, PartialEq, Eq, Structural)]
pub enum AtlasKey {
    Glyph(u64),
    Svg(u64),
    Image(u64),
    DynamicTexture(DynamicTextureId),
}

/// The kind of texture that holds a tile.
#[derive(Clone, Copy, Debug, PartialEq, Eq, Structural)]
pub enum AtlasTextureKind {
    Monochrome,
    Polychrome,
}

/// Names one texture of the atlas.
#[derive(Clone, Copy, Debug, PartialEq, Eq, Structural)]
pub struct AtlasTextureId {
    pub index: u32,
    pub kind: AtlasTextureKind,
}

/// Names one tile inside a texture.
#[derive(Clone, Copy, Debug, PartialEq, Eq, Structural)]
pub struct TileId(pub u32);

/// Where a rendered key lives: its texture, its tile and its rectangle.
#[derive(Clone, Copy, Debug, PartialEq, Eq, Structural)]
pub struct AtlasTile {
    pub texture_id: AtlasTextureId,
    pub tile_id: TileId,
    pub padding: u32,
    pub bounds: Bounds<DevicePixels>,
}

/// Why an in-place texture update was refused.
#[derive(Clone, Copy, Debug, PartialEq, Eq, Structural)]
pub enum AtlasUpdateError {
    /// No tile is stored under the key.
    TileNotFound,
    /// The rectangle is empty, the stride is shorter than a row, or no bytes were given.
    InvalidUpdate,
    /// The payload is not exactly as long as the rows and the stride require.
    InvalidPayload,
    /// The rectangle does not lie inside the tile.
    OutOfBounds,
}

/// The tile that the atlas hands out for a key whose pixels were just
/// built at `size`, when the last id it gave out was `last_id`.
pub open spec fn fresh_tile(last_id: nat, size: Size<DevicePixels>) -> AtlasTile {
    AtlasTile {
        texture_id: AtlasTextureId { index: (last_id + 1) as u32, kind: AtlasTextureKind::Monochrome },
        tile_id: TileId((last_id + 2) as u32),
        padding: 0,
        bounds: Bounds { origin: Point { x: DevicePixels(0), y: DevicePixels(0) }, size },
    }
}

/// Whether byte `i` of a texture whose rows are `dst_stride` bytes long lies in
/// the rectangle of `rows` rows, starting at row `y0`, whose bytes in each row
/// run from `x0` for `row_bytes` bytes.
pub open spec fn covers(i: int, dst_stride: int, x0: int, y0: int, row_bytes: int, rows: int) -> bool {
    &&& y0 <= i / dst_stride < y0 + rows
    &&& x0 <= i % dst_stride < x0 + row_bytes
}

/// `dst` with the rectangle of `rows` rows and `row_bytes` bytes per row at
/// byte column `x0` and row `y0` overwritten by the rows of `src`, which
/// start every `src_stride` bytes; every other byte is left as it was.
pub open spec fn blit(
    dst: Seq<u8>,
    dst_stride: int,
    x0: int,
    y0: int,
    row_bytes: int,
    rows: int,
    src: Seq<u8>,
    src_stride: int,
) -> Seq<u8> {
    Seq::new(
        dst.len(),
        |i: int|
            if covers(i, dst_stride, x0, y0, row_bytes, rows) {
                src[(i / dst_stride - y0) * src_stride + (i % dst_stride - x0)]
            } else {
                dst[i]
            },
    )
}

/// The pixels of `tile` after the rectangle `bounds` was written from `src`,
/// four bytes per pixel, with `stride` bytes between source rows.
pub open spec fn updated_pixels(
    pixels: Seq<u8>,
    tile: AtlasTile,
    bounds: Bounds<DevicePixels>,
    src: Seq<u8>,
    stride: int,
) -> Seq<u8> {
    blit(
        pixels,
        tile.bounds.size.width.0 * 4,
        bounds.origin.x.0 * 4,
        bounds.origin.y.0 as int,
        bounds.size.width.0 * 4,
        bounds.size.height.0 as int,
        src,
        stride,
    )
}

/// The rectangle is not empty, the stride holds a row and bytes were given.
pub open spec fn update_shape_ok(bounds: Bounds<DevicePixels>, len: int, stride: int) -> bool {
    &&& bounds.size.width.0 > 0
    &&& bounds.size.height.0 > 0
    &&& stride >= bounds.size.width.0 * 4
    &&& len != 0
}

/// The payload holds the last row in full and every earlier row at its stride.
pub open spec fn update_payload_ok(bounds: Bounds<DevicePixels>, len: int, stride: int) -> bool {
    len == (bounds.size.height.0 - 1) * stride + bounds.size.width.0 * 4
}

/// The rectangle lies inside the tile.
pub open spec fn update_inside(tile: AtlasTile, bounds: Bounds<DevicePixels>) -> bool {
    &&& bounds.origin.x.0 >= 0
    &&& bounds.origin.y.0 >= 0
    &&& bounds.origin.x.0 + bounds.size.width.0 <= tile.bounds.size.width.0
    &&& bounds.origin.y.0 + bounds.size.height.0 <= tile.bounds.size.height.0
}

/// What an update of the tile under `key` answers, checked in this order.
pub open spec fn update_outcome(
    tiles: Map<AtlasKey, AtlasTile>,
    key: AtlasKey,
    bounds: Bounds<DevicePixels>,
    len: int,
    stride: int,
) -> Result<(), AtlasUpdateError> {
    if !tiles.dom().contains(key) {
        Err(AtlasUpdateError::TileNotFound)
    } else if !update_shape_ok(bounds, len, stride) {
        Err(AtlasUpdateError::InvalidUpdate)
    } else if !update_payload_ok(bounds, len, stride) {
        Err(AtlasUpdateError::InvalidPayload)
    } else if !update_inside(tiles[key], bounds) {
        Err(AtlasUpdateError::OutOfBounds)
    } else {
        Ok(())
    }
}

/// The inputs on which an update writes only inside the stored pixels: when
/// every check passes, the stored pixels reach the end of the rectangle's
/// last row.
pub open spec fn update_in_range(
    tiles: Map<AtlasKey, AtlasTile>,
    pixels: Map<AtlasKey, Seq<u8>>,
    key: AtlasKey,
    bounds: Bounds<DevicePixels>,
    len: int,
    stride: int,
) -> bool {
    update_outcome(tiles, key, bounds, len, stride) is Ok ==> (bounds.origin.y.0 + bounds.size.height.0
        - 1) * (tiles[key].bounds.size.width.0 * 4) + bounds.origin.x.0 * 4 + bounds.size.width.0 * 4
        <= pixels[key].len()
}

proof fn lemma_row_step(ds: int, x0: int, y0: int, rb: int, row: int, i: int)
    requires
        ds > 0,
        x0 >= 0,
        y0 >= 0,
        row >= 0,
        rb >= 0,
        x0 + rb <= ds,
        i >= 0,
    ensures
        covers(i, ds, x0, y0, rb, row + 1) == (covers(i, ds, x0, y0, rb, row) || ((y0 + row) * ds
            + x0 <= i < (y0 + row) * ds + x0 + rb)),
        ((y0 + row) * ds + x0 <= i < (y0 + row) * ds + x0 + rb) ==> {
            &&& i / ds == y0 + row
            &&& i % ds == i - (y0 + row) * ds
        },
{
    let off = (y0 + row) * ds + x0;
    let q = i / ds;
    let m = i % ds;
    vstd::arithmetic::div_mod::lemma_fundamental_div_mod(i, ds);
    vstd::arithmetic::div_mod::lemma_mod_pos_bound(i, ds);
    vstd::arithmetic::mul::lemma_mul_is_commutative(ds, q);
    if off <= i < off + rb {
        vstd::arithmetic::div_mod::lemma_fundamental_div_mod_converse(i, ds, y0 + row, i - (y0 + row) * ds);
    }
    if q == y0 + row && x0 <= m < x0 + rb {
        assert(i == q * ds + m);
    }
}

/// Writes the rectangle of `rows` rows of `row_bytes` bytes at byte column
/// `x0` and row `y0` of `dst` from the rows of `src`, `src_stride` apart.
fn copy_rect(
    dst: &mut Vec<u8>,
    dst_stride: u64,
    x0: u64,
    y0: u64,
    row_bytes: u64,
    rows: u64,
    src: &[u8],
    src_stride: u64,
)
    requires
        dst_stride > 0,
        x0 + row_bytes <= dst_stride,
        rows >= 1,
        src_stride >= row_bytes,
        src@.len() == (rows - 1) * src_stride + row_bytes,
        (y0 + rows - 1) * dst_stride + x0 + row_bytes <= old(dst)@.len(),
    ensures
        final(dst)@ == blit(old(dst)@, dst_stride as int, x0 as int, y0 as int, row_bytes as int, rows as int, src@, src_stride as int),
{
    let ghost orig = dst@;
    let ghost (ds, xi, yi, rb, ss) = (dst_stride as int, x0 as int, y0 as int, row_bytes as int, src_stride as int);
    assert(dst@ =~= blit(orig, ds, xi, yi, rb, 0, src@, ss));
    assert(orig.len() == dst.len() && src@.len() == src.len());
    let mut row: u64 = 0;
    while row < rows
        invariant
            0 <= row <= rows,
            ds == dst_stride && xi == x0 && yi == y0 && rb == row_bytes && ss == src_stride,
            dst_stride > 0,
            x0 + row_bytes <= dst_stride,
            rows >= 1,
            src_stride >= row_bytes,
            src@.len() == (rows - 1) * src_stride + row_bytes,
            (y0 + rows - 1) * dst_stride + x0 + row_bytes <= orig.len(),
            dst@.len() == orig.len(),
            orig.len() <= usize::MAX,
            src@.len() <= usize::MAX,
            dst@ == blit(orig, ds, xi, yi, rb, row as int, src@, ss),
        decreases rows - row,
    {
        proof {
            vstd::arithmetic::mul::lemma_mul_inequality((y0 + row) as int, (y0 + rows - 1) as int, ds);
            vstd::arithmetic::mul::lemma_mul_inequality(row as int, (rows - 1) as int, ss);
            vstd::arithmetic::mul::lemma_mul_inequality(1, ds, (y0 + row) as int);
        }
        let off: u64 = (y0 + row) * dst_stride + x0;
        let start: u64 = row * src_stride;
        let off_at = off as usize;
        let start_at = start as usize;
        let ghost before = dst@;
        let mut col: usize = 0;
        while col < row_bytes as usize
            invariant
                col <= row_bytes,
                off_at == off && start_at == start,
                off == (y0 + row) * ds + xi,
                start == row * ss,
                off + row_bytes <= orig.len(),
                start + row_bytes <= src@.len(),
                dst@.len() == orig.len(),
                orig.len() <= usize::MAX,
                src@.len() <= usize::MAX,
                forall|i: int|
                    0 <= i < orig.len() ==> #[trigger] dst@[i] == (if off <= i < off + col {
                        src@[start + (i - off)]
                    } else {
                        before[i]
                    }),
            decreases row_bytes - col,
        {
            dst.set(off_at + col, src[start_at + col]);
            col = col + 1;
        }
        proof {
            assert forall|i: int| 0 <= i < orig.len() implies #[trigger] dst@[i] == blit(
                orig, ds, xi, yi, rb, row + 1, src@, ss)[i] by {
                lemma_row_step(ds, xi, yi, rb, row as int, i);
            }
            assert(dst@ =~= blit(orig, ds, xi, yi, rb, row + 1, src@, ss));
        }
        row = row + 1;
    }
}

/// Dirty-region law: after an update, a pixel of the tile outside the
/// rectangle keeps each of its four bytes, and a pixel inside it holds the
/// matching byte of its source row; the buffer keeps its length.
pub proof fn updated_pixels_touch_only_the_rectangle(
    pixels: Seq<u8>,
    tile: AtlasTile,
    bounds: Bounds<DevicePixels>,
    src: Seq<u8>,
    stride: int,
    x: int,
    y: int,
    c: int,
)
    requires
        update_shape_ok(bounds, src.len() as int, stride),
        update_inside(tile, bounds),
        0 <= x < tile.bounds.size.width.0,
        0 <= y,
        0 <= c < 4,
        (y * tile.bounds.size.width.0 + x) * 4 + c < pixels.len(),
    ensures
        updated_pixels(pixels, tile, bounds, src, stride).len() == pixels.len(),
        updated_pixels(pixels, tile, bounds, src, stride)[(y * tile.bounds.size.width.0 + x) * 4 + c]
            == if bounds.origin.x.0 <= x < bounds.origin.x.0 + bounds.size.width.0
            && bounds.origin.y.0 <= y < bounds.origin.y.0 + bounds.size.height.0 {
            src[(y - bounds.origin.y.0) * stride + (x - bounds.origin.x.0) * 4 + c]
        } else {
            pixels[(y * tile.bounds.size.width.0 + x) * 4 + c]
        },
{
    let tw = tile.bounds.size.width.0 as int;
    let ds = tw * 4;
    let i = (y * tw + x) * 4 + c;
    assert(i == y * ds + (x * 4 + c)) by (nonlinear_arith)
        requires
            i == (y * tw + x) * 4 + c,
            ds == tw * 4,
    ;
    vstd::arithmetic::div_mod::lemma_fundamental_div_mod_converse(i, ds, y, x * 4 + c);
}

/// The rows of an update are read only up to their width: two payloads of
/// the same length that agree on the first `4 * width` bytes of every stride
/// get the same answer and write the same pixels; the padding after each row
/// is never read.
pub proof fn update_ignores_row_padding(
    tiles: Map<AtlasKey, AtlasTile>,
    key: AtlasKey,
    bounds: Bounds<DevicePixels>,
    pixels: Seq<u8>,
    a: Seq<u8>,
    b: Seq<u8>,
    stride: int,
)
    requires
        a.len() == b.len(),
        stride > 0,
        forall|p: int| 0 <= p < a.len() && p % stride < bounds.size.width.0 * 4 ==> a[p] == b[p],
    ensures
        update_outcome(tiles, key, bounds, a.len() as int, stride) == update_outcome(
            tiles,
            key,
            bounds,
            b.len() as int,
            stride,
        ),
        update_outcome(tiles, key, bounds, a.len() as int, stride) is Ok ==> updated_pixels(
            pixels,
            tiles[key],
            bounds,
            a,
            stride,
        ) == updated_pixels(pixels, tiles[key], bounds, b, stride),
{
    if update_outcome(tiles, key, bounds, a.len() as int, stride) is Ok {
        let tile = tiles[key];
        let ds = tile.bounds.size.width.0 * 4;
        let x0 = bounds.origin.x.0 * 4;
        let y0 = bounds.origin.y.0 as int;
        let rb = bounds.size.width.0 * 4;
        let h = bounds.size.height.0 as int;
        assert forall|i: int| 0 <= i < pixels.len() implies #[trigger] updated_pixels(
            pixels,
            tile,
            bounds,
            a,
            stride,
        )[i] == updated_pixels(pixels, tile, bounds, b, stride)[i] by {
            if covers(i, ds, x0, y0, rb, h) {
                let r = i / ds - y0;
                let c = i % ds - x0;
                let j = r * stride + c;
                vstd::arithmetic::mul::lemma_mul_inequality(r, h - 1, stride);
                vstd::arithmetic::div_mod::lemma_fundamental_div_mod_converse(j, stride, r, c);
                assert(a[j] == b[j]);
            }
        }
        assert(updated_pixels(pixels, tile, bounds, a, stride) =~= updated_pixels(
            pixels,
            tile,
            bounds,
            b,
            stride,
        ));
    }
}

/// Writing the same rectangle from the same source twice leaves the pixels
/// as the first write left them.
pub proof fn update_is_idempotent(
    pixels: Seq<u8>,
    tile: AtlasTile,
    bounds: Bounds<DevicePixels>,
    src: Seq<u8>,
    stride: int,
)
    ensures
        updated_pixels(updated_pixels(pixels, tile, bounds, src, stride), tile, bounds, src, stride)
            == updated_pixels(pixels, tile, bounds, src, stride),
{
    assert(updated_pixels(updated_pixels(pixels, tile, bounds, src, stride), tile, bounds, src, stride)
        =~= updated_pixels(pixels, tile, bounds, src, stride));
}

/// Updates of two rectangles that do not overlap commute: either order leaves
/// the same pixels.
pub proof fn disjoint_updates_commute(
    pixels: Seq<u8>,
    tile: AtlasTile,
    first: Bounds<DevicePixels>,
    first_src: Seq<u8>,
    first_stride: int,
    second: Bounds<DevicePixels>,
    second_src: Seq<u8>,
    second_stride: int,
)
    requires
        first.origin.x.0 + first.size.width.0 <= second.origin.x.0
            || second.origin.x.0 + second.size.width.0 <= first.origin.x.0
            || first.origin.y.0 + first.size.height.0 <= second.origin.y.0
            || second.origin.y.0 + second.size.height.0 <= first.origin.y.0,
    ensures
        updated_pixels(
            updated_pixels(pixels, tile, first, first_src, first_stride),
            tile,
            second,
            second_src,
            second_stride,
        ) == updated_pixels(
            updated_pixels(pixels, tile, second, second_src, second_stride),
            tile,
            first,
            first_src,
            first_stride,
        ),
{
    assert(updated_pixels(
        updated_pixels(pixels, tile, first, first_src, first_stride),
        tile,
        second,
        second_src,
        second_stride,
    ) =~= updated_pixels(
        updated_pixels(pixels, tile, second, second_src, second_stride),
        tile,
        first,
        first_src,
        first_stride,
    ));
}

/// The same update applied twice to the atlas: after an update that
/// succeeded, repeating it is again in range and succeeds, and it leaves the
/// pixels of every key as the first one left them.
pub proof fn repeated_update_keeps_the_atlas(
    tiles: Map<AtlasKey, AtlasTile>,
    pixels: Map<AtlasKey, Seq<u8>>,
    key: AtlasKey,
    bounds: Bounds<DevicePixels>,
    src: Seq<u8>,
    stride: int,
)
    requires
        update_in_range(tiles, pixels, key, bounds, src.len() as int, stride),
        update_outcome(tiles, key, bounds, src.len() as int, stride) is Ok,
    ensures
        ({
            let once = pixels.insert(key, updated_pixels(pixels[key], tiles[key], bounds, src, stride));
            &&& update_in_range(tiles, once, key, bounds, src.len() as int, stride)
            &&& once.insert(key, updated_pixels(once[key], tiles[key], bounds, src, stride)) == once
        }),
{
    let once = pixels.insert(key, updated_pixels(pixels[key], tiles[key], bounds, src, stride));
    update_is_idempotent(pixels[key], tiles[key], bounds, src, stride);
    assert(once.insert(key, updated_pixels(once[key], tiles[key], bounds, src, stride)) =~= once);
}

/// Two successful updates of non-overlapping rectangles of one tile, applied
/// to the atlas in either order: the second is still in range and succeeds,
/// and both orders leave the same pixels.
pub proof fn disjoint_updates_commute_in_atlas(
    tiles: Map<AtlasKey, AtlasTile>,
    pixels: Map<AtlasKey, Seq<u8>>,
    key: AtlasKey,
    first: Bounds<DevicePixels>,
    first_src: Seq<u8>,
    first_stride: int,
    second: Bounds<DevicePixels>,
    second_src: Seq<u8>,
    second_stride: int,
)
    requires
        update_in_range(tiles, pixels, key, first, first_src.len() as int, first_stride),
        update_in_range(tiles, pixels, key, second, second_src.len() as int, second_stride),
        update_outcome(tiles, key, first, first_src.len() as int, first_stride) is Ok,
        update_outcome(tiles, key, second, second_src.len() as int, second_stride) is Ok,
        first.origin.x.0 + first.size.width.0 <= second.origin.x.0
            || second.origin.x.0 + second.size.width.0 <= first.origin.x.0
            || first.origin.y.0 + first.size.height.0 <= second.origin.y.0
            || second.origin.y.0 + second.size.height.0 <= first.origin.y.0,
    ensures
        ({
            let tile = tiles[key];
            let after_first = pixels.insert(key, updated_pixels(pixels[key], tile, first, first_src, first_stride));
            let after_second = pixels.insert(key, updated_pixels(pixels[key], tile, second, second_src, second_stride));
            &&& update_in_range(tiles, after_first, key, second, second_src.len() as int, second_stride)
            &&& update_in_range(tiles, after_second, key, first, first_src.len() as int, first_stride)
            &&& after_first.insert(key, updated_pixels(after_first[key], tile, second, second_src, second_stride))
                == after_second.insert(key, updated_pixels(after_second[key], tile, first, first_src, first_stride))
        }),
{
    let tile = tiles[key];
    let after_first = pixels.insert(key, updated_pixels(pixels[key], tile, first, first_src, first_stride));
    let after_second = pixels.insert(key, updated_pixels(pixels[key], tile, second, second_src, second_stride));
    disjoint_updates_commute(pixels[key], tile, first, first_src, first_stride, second, second_src, second_stride);
    assert(after_first.insert(key, updated_pixels(after_first[key], tile, second, second_src, second_stride))
        =~= after_second.insert(key, updated_pixels(after_second[key], tile, first, first_src, first_stride)));
}

/// Tile ids count the tiles created: along a run of calls from a new atlas
/// where call `i` creates a tile exactly when `created[i]` (`new` starts at 0,
/// a creating `get_or_insert_with` or `insert_built` adds 2, every other call
/// keeps the last id), the last id after `k` calls is twice the tiles created
/// so far, and the `n`-th tile created gets texture id `2n - 1` and tile id
/// `2n` (`fresh_tile`), so no id is handed out twice, not even one of a
/// removed tile.
pub proof fn tile_ids_count_creations(atlases: Seq<TestAtlas>, created: Seq<bool>)
    requires
        atlases.len() == created.len() + 1,
        atlases[0].last_id() == 0,
        forall|i: int|
            0 <= i < created.len() ==> atlases[i + 1].last_id() == atlases[i].last_id() + if #[trigger] created[i] {
                2nat
            } else {
                0nat
            },
    ensures
        forall|k: int| 0 <= k <= created.len() ==> #[trigger] atlases[k].last_id() == 2 * count_set(created.take(k)),
        forall|k: int|
            0 <= k < created.len() && #[trigger] created[k] ==> {
                &&& atlases[k].last_id() + 1 == 2 * count_set(created.take(k + 1)) - 1
                &&& atlases[k].last_id() + 2 == 2 * count_set(created.take(k + 1))
            },
{
    let counts = Seq::new(atlases.len(), |i: int| atlases[i].last_id() as int);
    counter_accumulates(counts, created, 2);
    assert forall|k: int| 0 <= k <= created.len() implies #[trigger] atlases[k].last_id() == 2 * count_set(created.take(k)) by {
        assert(counts[k] == counts[0] + 2 * count_set(created.take(k)));
    }
    assert forall|k: int| 0 <= k < created.len() && #[trigger] created[k] implies {
        &&& atlases[k].last_id() + 1 == 2 * count_set(created.take(k + 1)) - 1
        &&& atlases[k].last_id() + 2 == 2 * count_set(created.take(k + 1))
    } by {
        assert(counts[k] == counts[0] + 2 * count_set(created.take(k)));
        assert(counts[k + 1] == counts[0] + 2 * count_set(created.take(k + 1)));
        assert(counts[k + 1] == counts[k] + 2);
    }
}

/// A call as the set of stored keys sees it.
pub enum KeyCall {
    /// A tile was stored under the key (`get_or_insert_with` that built one,
    /// or `insert_built`).
    Stored(AtlasKey),
    /// `remove` of the key.
    Removed(AtlasKey),
    /// Any call that keeps the stored keys.
    Kept,
}

/// Whether the stored keys go from `before` to `after` by `call`.
pub open spec fn key_call_step(before: Set<AtlasKey>, after: Set<AtlasKey>, call: KeyCall) -> bool {
    after == match call {
        KeyCall::Stored(k) => before.insert(k),
        KeyCall::Removed(k) => before.remove(k),
        KeyCall::Kept => before,
    }
}

/// Some call stored `key` and no later call removed it.
pub open spec fn stored_and_not_removed(calls: Seq<KeyCall>, key: AtlasKey) -> bool {
    exists|i: int|
        0 <= i < calls.len() && #[trigger] calls[i] == KeyCall::Stored(key) && forall|j: int|
            i < j < calls.len() ==> calls[j] != KeyCall::Removed(key)
}

/// Along a run of calls from a new atlas, `contains(key)` answers whether
/// some call stored a tile under `key` and no later call removed it.
pub proof fn contains_after_calls(atlases: Seq<TestAtlas>, calls: Seq<KeyCall>, key: AtlasKey)
    requires
        atlases.len() == calls.len() + 1,
        atlases[0].tile_map().dom() == Set::<AtlasKey>::empty(),
        forall|i: int|
            0 <= i < calls.len() ==> key_call_step(
                atlases[i].tile_map().dom(),
                atlases[i + 1].tile_map().dom(),
                #[trigger] calls[i],
            ),
    ensures
        atlases.last().tile_map().dom().contains(key) == stored_and_not_removed(calls, key),
    decreases calls.len(),
{
    if calls.len() == 0 {
        assert(!atlases.last().tile_map().dom().contains(key));
    } else {
        let n = calls.len() - 1;
        let prev = calls.drop_last();
        contains_after_calls(atlases.drop_last(), prev, key);
        assert(atlases.drop_last().last() == atlases[n]);
        assert(key_call_step(atlases[n].tile_map().dom(), atlases[n + 1].tile_map().dom(), calls[n]));
        if calls[n] == KeyCall::Stored(key) {
            assert(stored_and_not_removed(calls, key));
        } else if calls[n] == KeyCall::Removed(key) {
            assert(!stored_and_not_removed(calls, key)) by {
                if stored_and_not_removed(calls, key) {
                    let i = choose|i: int|
                        0 <= i < calls.len() && #[trigger] calls[i] == KeyCall::Stored(key) && forall|j: int|
                            i < j < calls.len() ==> calls[j] != KeyCall::Removed(key);
                    assert(i != n);
                    assert(calls[n] != KeyCall::Removed(key));
                }
            }
        } else {
            assert(atlases[n + 1].tile_map().dom().contains(key) == atlases[n].tile_map().dom().contains(key));
            if stored_and_not_removed(prev, key) {
                let i = choose|i: int|
                    0 <= i < prev.len() && #[trigger] prev[i] == KeyCall::Stored(key) && forall|j: int|
                        i < j < prev.len() ==> prev[j] != KeyCall::Removed(key);
                assert(calls[i] == KeyCall::Stored(key));
                assert forall|j: int| i < j < calls.len() implies calls[j] != KeyCall::Removed(key) by {
                    if j < n {
                        assert(prev[j] == calls[j]);
                    }
                }
                assert(stored_and_not_removed(calls, key));
            }
            if stored_and_not_removed(calls, key) {
                let i = choose|i: int|
                    0 <= i < calls.len() && #[trigger] calls[i] == KeyCall::Stored(key) && forall|j: int|
                        i < j < calls.len() ==> calls[j] != KeyCall::Removed(key);
                assert(i != n);
                assert(prev[i] == KeyCall::Stored(key));
                assert forall|j: int| i < j < prev.len() implies prev[j] != KeyCall::Removed(key) by {
                    assert(prev[j] == calls[j]);
                }
                assert(stored_and_not_removed(prev, key));
            }
        }
    }
}

/// What an update answers, in terms of its inputs: `TileNotFound` without a
/// tile; otherwise `InvalidUpdate` for an empty rectangle, a stride shorter
/// than a row (`4 * width` bytes) or no bytes; then `InvalidPayload` unless
/// the payload holds exactly `height - 1` strides and one row; then
/// `OutOfBounds` unless the rectangle lies in the tile (its right edge within
/// the tile's width, its bottom edge within the tile's height); and `Ok`
/// otherwise, whatever the stride beyond one row.
pub proof fn update_answers_by_its_checks(
    tiles: Map<AtlasKey, AtlasTile>,
    key: AtlasKey,
    bounds: Bounds<DevicePixels>,
    len: int,
    stride: int,
)
    ensures
        !tiles.dom().contains(key) ==> update_outcome(tiles, key, bounds, len, stride) == Err::<(), AtlasUpdateError>(
            AtlasUpdateError::TileNotFound,
        ),
        tiles.dom().contains(key) ==> ({
            let w = bounds.size.width.0 as int;
            let h = bounds.size.height.0 as int;
            let x = bounds.origin.x.0 as int;
            let y = bounds.origin.y.0 as int;
            let tile_width = tiles[key].bounds.size.width.0 as int;
            let tile_height = tiles[key].bounds.size.height.0 as int;
            let outcome = update_outcome(tiles, key, bounds, len, stride);
            &&& !(w > 0 && h > 0 && stride >= 4 * w && len != 0) ==> outcome == Err::<(), AtlasUpdateError>(
                AtlasUpdateError::InvalidUpdate,
            )
            &&& (w > 0 && h > 0 && stride >= 4 * w && len != 0 && len != (h - 1) * stride + 4 * w)
                ==> outcome == Err::<(), AtlasUpdateError>(AtlasUpdateError::InvalidPayload)
            &&& (w > 0 && h > 0 && stride >= 4 * w && len == (h - 1) * stride + 4 * w && (x < 0 || y < 0
                || x + w > tile_width || y + h > tile_height)) ==> outcome == Err::<(), AtlasUpdateError>(
                AtlasUpdateError::OutOfBounds,
            )
            &&& (w > 0 && h > 0 && stride >= 4 * w && len == (h - 1) * stride + 4 * w && x >= 0 && y >= 0
                && x + w <= tile_width && y + h <= tile_height) ==> outcome == Ok::<(), AtlasUpdateError>(())
        }),
{
}

/// A tile built for a missing key sits at the origin with exactly the built
/// size, in a monochrome texture without padding, and takes the two ids
/// after the last one handed out: the texture id first, then the tile id.
pub proof fn fresh_tile_has_the_built_size(last_id: nat, size: Size<DevicePixels>)
    requires
        last_id + 2 <= u32::MAX,
    ensures
        fresh_tile(last_id, size).bounds == (Bounds {
            origin: Point { x: DevicePixels(0), y: DevicePixels(0) },
            size,
        }),
        fresh_tile(last_id, size).bounds.size.width == size.width,
        fresh_tile(last_id, size).bounds.size.height == size.height,
        fresh_tile(last_id, size).texture_id.index == last_id + 1,
        fresh_tile(last_id, size).texture_id.kind == AtlasTextureKind::Monochrome,
        fresh_tile(last_id, size).tile_id.0 == last_id + 2,
        fresh_tile(last_id, size).padding == 0,
{
}

/// An in-memory sprite atlas: each key owns one tile and the pixels that were
/// built for it.
///
/// The entries live in three parallel vectors (keys, tiles, pixels) and are
/// found by comparing keys, each key at most once. A hash map keyed by
/// `AtlasKey` would rest on the derived `Hash` and `Eq` of an enum, of which
/// the verifier can prove nothing; equality of the derived `Structural` keys
/// is what it can read.
pub struct TestAtlas {
    next_id: u32,
    keys: Vec<AtlasKey>,
    tiles: Vec<AtlasTile>,
    pixels: Vec<Vec<u8>>,
}

impl TestAtlas {
    spec fn has_key(self, key: AtlasKey) -> bool {
        exists|i: int| 0 <= i < self.keys@.len() && self.keys@[i] == key
    }

    spec fn slot(self, key: AtlasKey) -> int {
        choose|i: int| 0 <= i < self.keys@.len() && self.keys@[i] == key
    }

    /// The tile stored under each key.
    pub closed spec fn tile_map(self) -> Map<AtlasKey, AtlasTile> {
        Map::new(|k: AtlasKey| self.has_key(k), |k: AtlasKey| self.tiles@[self.slot(k)])
    }

    /// The pixels stored under each key.
    pub closed spec fn pixel_map(self) -> Map<AtlasKey, Seq<u8>> {
        Map::new(|k: AtlasKey| self.has_key(k), |k: AtlasKey| self.pixels@[self.slot(k)]@)
    }

    /// The last id handed out to a texture or a tile (0 when none was).
    pub closed spec fn last_id(self) -> nat {
        self.next_id as nat
    }

    /// The atlas's invariant: one entry per key, tiles and pixels side by
    /// side, and every tile holds two ids of its own, both already handed out.
    pub closed spec fn wf(self) -> bool {
        &&& self.tiles@.len() == self.keys@.len()
        &&& self.pixels@.len() == self.keys@.len()
        &&& forall|i: int, j: int|
            0 <= i < self.keys@.len() && 0 <= j < self.keys@.len() && i != j
                ==> self.keys@[i] != self.keys@[j]
        &&& forall|i: int|
            0 <= i < self.tiles@.len() ==> {
                &&& 1 <= (#[trigger] self.tiles@[i]).texture_id.index
                &&& self.tiles@[i].tile_id.0 == self.tiles@[i].texture_id.index + 1
                &&& self.tiles@[i].tile_id.0 <= self.next_id
            }
        &&& forall|i: int, j: int|
            0 <= i < self.tiles@.len() && 0 <= j < self.tiles@.len() && i != j ==> (
            (#[trigger] self.tiles@[i]).tile_id.0 < (#[trigger] self.tiles@[j]).texture_id.index
                || self.tiles@[j].tile_id.0 < self.tiles@[i].texture_id.index)
    }

    proof fn lemma_slot(self, i: int)
        requires
            self.wf(),
            0 <= i < self.keys@.len(),
        ensures
            self.has_key(self.keys@[i]),
            self.slot(self.keys@[i]) == i,
    {
        let k = self.keys@[i];
        assert(self.has_key(k));
        let j = self.slot(k);
        assert(0 <= j < self.keys@.len() && self.keys@[j] == k);
    }

    /// An atlas with no tiles.
    pub fn new() -> (atlas: TestAtlas)
        ensures
            atlas.wf(),
            atlas.last_id() == 0,
            atlas.tile_map() == Map::<AtlasKey, AtlasTile>::empty(),
            atlas.pixel_map() == Map::<AtlasKey, Seq<u8>>::empty(),
    {
        let atlas = TestAtlas { next_id: 0, keys: Vec::new(), tiles: Vec::new(), pixels: Vec::new() };
        assert(atlas.tile_map() =~= Map::<AtlasKey, AtlasTile>::empty());
        assert(atlas.pixel_map() =~= Map::<AtlasKey, Seq<u8>>::empty());
        atlas
    }

    fn find(&self, key: &AtlasKey) -> (r: Option<usize>)
        requires
            self.wf(),
        ensures
            match r {
                Some(i) => i < self.keys@.len() && self.keys@[i as int] == *key && self.slot(*key) == i
                    && self.has_key(*key),
                None => !self.has_key(*key),
            },
    {
        let mut i: usize = 0;
        while i < self.keys.len()
            invariant
                self.wf(),
                i <= self.keys@.len(),
                forall|j: int| 0 <= j < i ==> self.keys@[j] != *key,
            decreases self.keys@.len() - i,
        {
            if self.keys[i] == *key {
                proof {
                    self.lemma_slot(i as int);
                }
                return Some(i);
            }
            i = i + 1;
        }
        None
    }

    /// Whether a tile is stored under `key`.
    pub fn contains(&self, key: &AtlasKey) -> (r: bool)
        requires
            self.wf(),
        ensures
            r == self.tile_map().dom().contains(*key),
    {
        self.find(key).is_some()
    }

    /// The pixels stored under `key`, if any.
    pub fn pixels(&self, key: &AtlasKey) -> (r: Option<&Vec<u8>>)
        requires
            self.wf(),
        ensures
            r is Some <==> self.pixel_map().dom().contains(*key),
            r matches Some(p) ==> p@ == self.pixel_map()[*key],
    {
        match self.find(key) {
            Some(i) => Some(&self.pixels[i]),
            None => None,
        }
    }

    /// Drops the tile and the pixels stored under `key`, if any.
    pub fn remove(&mut self, key: &AtlasKey)
        requires
            old(self).wf(),
        ensures
            final(self).wf(),
            final(self).last_id() == old(self).last_id(),
            final(self).tile_map() == old(self).tile_map().remove(*key),
            final(self).pixel_map() == old(self).pixel_map().remove(*key),
    {
        match self.find(key) {
            None => {
                assert(self.tile_map() =~= self.tile_map().remove(*key));
                assert(self.pixel_map() =~= self.pixel_map().remove(*key));
            },
            Some(i) => {
                let ghost prev = *self;
                self.keys.remove(i);
                self.tiles.remove(i);
                self.pixels.remove(i);
                proof {
                    let ii = i as int;
                    assert forall|a: int, b: int|
                        0 <= a < self.tiles@.len() && 0 <= b < self.tiles@.len() && a != b implies (
                        (#[trigger] self.tiles@[a]).tile_id.0 < (#[trigger] self.tiles@[b]).texture_id.index
                            || self.tiles@[b].tile_id.0 < self.tiles@[a].texture_id.index) by {
                        let pa = if a < ii { a } else { a + 1 };
                        let pb = if b < ii { b } else { b + 1 };
                        assert(prev.tiles@[pa] == self.tiles@[a]);
                        assert(prev.tiles@[pb] == self.tiles@[b]);
                    }
                    assert forall|a: int| 0 <= a < self.tiles@.len() implies {
                        &&& 1 <= (#[trigger] self.tiles@[a]).texture_id.index
                        &&& self.tiles@[a].tile_id.0 == self.tiles@[a].texture_id.index + 1
                        &&& self.tiles@[a].tile_id.0 <= self.next_id
                    } by {
                        let pa = if a < ii { a } else { a + 1 };
                        assert(prev.tiles@[pa] == self.tiles@[a]);
                    }
                    assert(self.wf());
                    assert forall|k: AtlasKey| #![auto]
                        self.has_key(k) == (prev.has_key(k) && k != *key)
                        && (self.has_key(k) ==> {
                            &&& self.tiles@[self.slot(k)] == prev.tiles@[prev.slot(k)]
                            &&& self.pixels@[self.slot(k)] == prev.pixels@[prev.slot(k)]
                        }) by {
                        if self.has_key(k) {
                            let a = self.slot(k);
                            self.lemma_slot(a);
                            let pa = if a < ii { a } else { a + 1 };
                            assert(prev.keys@[pa] == k);
                            prev.lemma_slot(pa);
                        }
                        if prev.has_key(k) && k != *key {
                            let pa = prev.slot(k);
                            prev.lemma_slot(pa);
                            assert(pa != ii);
                            let a = if pa < ii { pa } else { pa - 1 };
                            assert(self.keys@[a] == k);
                        }
                    }
                    assert(self.tile_map() =~= prev.tile_map().remove(*key));
                    assert(self.pixel_map() =~= prev.pixel_map().remove(*key));
                }
            },
        }
    }
    /// The tile stored under `key`; when there is none, builds the pixels with
    /// `build` and stores them under a tile of their size with two fresh ids.
    /// `build` runs only when the key is missing.
    pub fn get_or_insert_with<E, F: FnOnce() -> Result<Option<(Size<DevicePixels>, Vec<u8>)>, E>>(
        &mut self,
        key: &AtlasKey,
        build: F,
    ) -> (r: Result<Option<AtlasTile>, E>)
        requires
            old(self).wf(),
            !old(self).tile_map().dom().contains(*key) ==> call_requires(build, ()),
            !old(self).tile_map().dom().contains(*key) ==> (old(self).last_id() + 2 <= u32::MAX || forall|
                built: Result<Option<(Size<DevicePixels>, Vec<u8>)>, E>,
            | #[trigger] call_ensures(build, (), built) ==> !(built matches Ok(Some(_)))),
        ensures
            final(self).wf(),
            old(self).tile_map().dom().contains(*key) ==> {
                &&& r == Ok::<Option<AtlasTile>, E>(Some(old(self).tile_map()[*key]))
                &&& final(self).tile_map() == old(self).tile_map()
                &&& final(self).pixel_map() == old(self).pixel_map()
                &&& final(self).last_id() == old(self).last_id()
            },
            !old(self).tile_map().dom().contains(*key) ==> exists|built: Result<Option<(Size<DevicePixels>, Vec<u8>)>, E>|
                #[trigger] call_ensures(build, (), built) && match built {
                    Err(e) => {
                        &&& r == Err::<Option<AtlasTile>, E>(e)
                        &&& final(self).tile_map() == old(self).tile_map()
                        &&& final(self).pixel_map() == old(self).pixel_map()
                        &&& final(self).last_id() == old(self).last_id()
                    },
                    Ok(None) => {
                        &&& r == Ok::<Option<AtlasTile>, E>(None)
                        &&& final(self).tile_map() == old(self).tile_map()
                        &&& final(self).pixel_map() == old(self).pixel_map()
                        &&& final(self).last_id() == old(self).last_id()
                    },
                    Ok(Some((size, bytes))) => {
                        let tile = fresh_tile(old(self).last_id(), size);
                        &&& r == Ok::<Option<AtlasTile>, E>(Some(tile))
                        &&& final(self).tile_map() == old(self).tile_map().insert(*key, tile)
                        &&& final(self).pixel_map() == old(self).pixel_map().insert(*key, bytes@)
                        &&& final(self).last_id() == old(self).last_id() + 2
                    },
                },
    {
        if let Some(i) = self.find(key) {
            return Ok(Some(self.tiles[i]));
        }
        let built = build();
        let (size, bytes) = match built {
            Err(e) => return Err(e),
            Ok(None) => return Ok(None),
            Ok(Some(entry)) => entry,
        };
        let tile = self.push_new(key, size, bytes);
        Ok(Some(tile))
    }
    /// Overwrites the rectangle `bounds` of the texture stored under `key`
    /// with the rows of `bytes`, four bytes per pixel, `bytes_per_row` bytes
    /// apart; every byte outside the rectangle keeps its value. The checks run
    /// in the order of `update_outcome`, and a refused update changes nothing.
    pub fn update(
        &mut self,
        key: &AtlasKey,
        bounds: Bounds<DevicePixels>,
        bytes: &[u8],
        bytes_per_row: u32,
    ) -> (r: Result<(), AtlasUpdateError>)
        requires
            old(self).wf(),
            update_in_range(
                old(self).tile_map(),
                old(self).pixel_map(),
                *key,
                bounds,
                bytes@.len() as int,
                bytes_per_row as int,
            ),
        ensures
            final(self).wf(),
            r == update_outcome(
                old(self).tile_map(),
                *key,
                bounds,
                bytes@.len() as int,
                bytes_per_row as int,
            ),
            final(self).tile_map() == old(self).tile_map(),
            final(self).last_id() == old(self).last_id(),
            r is Err ==> final(self).pixel_map() == old(self).pixel_map(),
            r is Ok ==> final(self).pixel_map() == old(self).pixel_map().insert(
                *key,
                updated_pixels(
                    old(self).pixel_map()[*key],
                    old(self).tile_map()[*key],
                    bounds,
                    bytes@,
                    bytes_per_row as int,
                ),
            ),
    {
        let idx = match self.find(key) {
            Some(i) => i,
            None => return Err(AtlasUpdateError::TileNotFound),
        };
        let tile = self.tiles[idx];
        let width = bounds.size.width.0 as i64;
        let height = bounds.size.height.0 as i64;
        if !(width > 0 && height > 0 && bytes_per_row as i64 >= width * 4 && bytes.len() != 0) {
            return Err(AtlasUpdateError::InvalidUpdate);
        }
        let rows = height as u64;
        let stride = bytes_per_row as u64;
        let row_bytes = width as u64 * 4;
        assert((rows - 1) * stride <= 0x8000_0000u64 * 0x1_0000_0000u64) by (nonlinear_arith)
            requires
                rows <= 0x8000_0000u64,
                stride <= 0x1_0000_0000u64,
        ;
        let required = (rows - 1) * stride + row_bytes;
        if bytes.len() as u64 != required {
            return Err(AtlasUpdateError::InvalidPayload);
        }
        let x = bounds.origin.x.0 as i64;
        let y = bounds.origin.y.0 as i64;
        let right = x + width;
        let bottom = y + height;
        if !(x >= 0 && y >= 0 && right <= tile.bounds.size.width.0 as i64 && bottom
            <= tile.bounds.size.height.0 as i64) {
            return Err(AtlasUpdateError::OutOfBounds);
        }
        let dst_stride = tile.bounds.size.width.0 as u64 * 4;
        let ghost prev = *self;
        let mut destination: Vec<u8> = Vec::new();
        self.pixels.set_and_swap(idx, &mut destination);
        proof {
            prev.lemma_slot(idx as int);
        }
        copy_rect(&mut destination, dst_stride, x as u64 * 4, y as u64, row_bytes, rows, bytes, stride);
        self.pixels.set(idx, destination);
        proof {
            assert(self.keys@ == prev.keys@);
            assert forall|k: AtlasKey| #![auto] self.has_key(k) == prev.has_key(k) && self.slot(k) == prev.slot(k) by {}
            assert forall|k: AtlasKey| #![auto] prev.has_key(k) && k != *key implies prev.slot(k) != idx by {
                prev.lemma_slot(prev.slot(k));
            }
            assert(self.tile_map() =~= prev.tile_map());
            assert(self.pixel_map() =~= prev.pixel_map().insert(
                *key,
                updated_pixels(prev.pixel_map()[*key], prev.tile_map()[*key], bounds, bytes@, bytes_per_row as int),
            ));
        }
        Ok(())
    }
    /// Tiles stored under two different keys share neither a texture id nor a
    /// tile id, and every id in use has already been handed out.
    pub proof fn tile_ids_are_distinct(self, a: AtlasKey, b: AtlasKey)
        requires
            self.wf(),
            self.tile_map().dom().contains(a),
            self.tile_map().dom().contains(b),
            a != b,
        ensures
            self.tile_map()[a].texture_id.index != self.tile_map()[b].texture_id.index,
            self.tile_map()[a].tile_id != self.tile_map()[b].tile_id,
            self.tile_map()[a].texture_id.index != self.tile_map()[b].tile_id.0,
            self.tile_map()[a].texture_id.index != self.tile_map()[a].tile_id.0,
            self.tile_map()[a].tile_id.0 <= self.last_id(),
    {
        let i = self.slot(a);
        let j = self.slot(b);
        assert(self.has_key(a) && self.has_key(b));
        assert(self.tiles@[i] == self.tile_map()[a]);
        assert(self.tiles@[j] == self.tile_map()[b]);
    }
    /// The last id handed out to a texture or a tile (0 when none was).
    pub fn next_id(&self) -> (r: u32)
        ensures
            r == self.last_id(),
    {
        self.next_id
    }

    /// Whether an update of the tile under `key` with these arguments writes
    /// only inside the stored pixels (`update_in_range`).
    pub fn update_fits(&self, key: &AtlasKey, bounds: Bounds<DevicePixels>, len: usize, bytes_per_row: u32) -> (r: bool)
        requires
            self.wf(),
        ensures
            r == update_in_range(self.tile_map(), self.pixel_map(), *key, bounds, len as int, bytes_per_row as int),
    {
        let idx = match self.find(key) {
            Some(i) => i,
            None => return true,
        };
        proof {
            self.lemma_slot(idx as int);
        }
        let tile = self.tiles[idx];
        let w = bounds.size.width.0 as i64;
        let h = bounds.size.height.0 as i64;
        if !(w > 0 && h > 0 && bytes_per_row as i64 >= w * 4 && len != 0) {
            return true;
        }
        assert((h - 1) * bytes_per_row <= 0x8000_0000u64 * 0x1_0000_0000u64) by (nonlinear_arith)
            requires
                0 < h <= 0x8000_0000i64,
        ;
        if len as u64 != (h as u64 - 1) * bytes_per_row as u64 + w as u64 * 4 {
            return true;
        }
        let x = bounds.origin.x.0 as i64;
        let y = bounds.origin.y.0 as i64;
        let tw = tile.bounds.size.width.0 as i64;
        let th = tile.bounds.size.height.0 as i64;
        if !(x >= 0 && y >= 0 && x + w <= tw && y + h <= th) {
            return true;
        }
        let last_row = (y + h - 1) as u128;
        let dst_stride = tw as u128 * 4;
        assert(last_row * dst_stride <= 0x8000_0000u128 * 0x2_0000_0000u128) by (nonlinear_arith)
            requires
                last_row <= 0x8000_0000u128,
                dst_stride <= 0x2_0000_0000u128,
        ;
        let end = last_row * dst_stride + x as u128 * 4 + w as u128 * 4;
        end <= self.pixels[idx].len() as u128
    }
    /// A key has stored pixels exactly when it has a tile.
    pub proof fn tile_and_pixel_keys_agree(self)
        ensures
            self.tile_map().dom() == self.pixel_map().dom(),
    {
        assert(self.tile_map().dom() =~= self.pixel_map().dom());
    }

    /// A tile built now gets ids above every id of a tile stored now; since
    /// the last id only grows, ids are never handed out twice, not even after
    /// the tile that held them was removed.
    pub proof fn fresh_tile_ids_are_new(self, size: Size<DevicePixels>, key: AtlasKey)
        requires
            self.wf(),
            self.tile_map().dom().contains(key),
            self.last_id() + 2 <= u32::MAX,
        ensures
            fresh_tile(self.last_id(), size).texture_id.index > self.tile_map()[key].tile_id.0,
            self.tile_map()[key].tile_id.0 > self.tile_map()[key].texture_id.index,
    {
        let i = self.slot(key);
        assert(self.has_key(key));
        assert(self.tiles@[i] == self.tile_map()[key]);
    }
    /// Stores `bytes` under the absent `key`, in a tile of `size` with two
    /// fresh ids.
    fn push_new(&mut self, key: &AtlasKey, size: Size<DevicePixels>, bytes: Vec<u8>) -> (tile: AtlasTile)
        requires
            old(self).wf(),
            !old(self).tile_map().dom().contains(*key),
            old(self).last_id() + 2 <= u32::MAX,
        ensures
            final(self).wf(),
            tile == fresh_tile(old(self).last_id(), size),
            final(self).tile_map() == old(self).tile_map().insert(*key, tile),
            final(self).pixel_map() == old(self).pixel_map().insert(*key, bytes@),
            final(self).last_id() == old(self).last_id() + 2,
    {
        proof {
            assert(!self.has_key(*key));
        }
        let ghost prev = *self;
        self.next_id = self.next_id + 1;
        let texture_id = self.next_id;
        self.next_id = self.next_id + 1;
        let tile_id = self.next_id;
        let tile = AtlasTile {
            texture_id: AtlasTextureId { index: texture_id, kind: AtlasTextureKind::Monochrome },
            tile_id: TileId(tile_id),
            padding: 0,
            bounds: Bounds { origin: Point { x: DevicePixels(0), y: DevicePixels(0) }, size },
        };
        self.keys.push(*key);
        self.tiles.push(tile);
        self.pixels.push(bytes);
        proof {
            let n = prev.keys@.len() as int;
            assert forall|a: int, b: int|
                0 <= a < self.tiles@.len() && 0 <= b < self.tiles@.len() && a != b implies (
                (#[trigger] self.tiles@[a]).tile_id.0 < (#[trigger] self.tiles@[b]).texture_id.index
                    || self.tiles@[b].tile_id.0 < self.tiles@[a].texture_id.index) by {
                if a < n && b < n {
                    assert(prev.tiles@[a] == self.tiles@[a]);
                    assert(prev.tiles@[b] == self.tiles@[b]);
                } else if a < n {
                    assert(prev.tiles@[a] == self.tiles@[a]);
                } else {
                    assert(prev.tiles@[b] == self.tiles@[b]);
                }
            }
            assert forall|a: int, b: int|
                0 <= a < self.keys@.len() && 0 <= b < self.keys@.len() && a != b
                    implies self.keys@[a] != self.keys@[b] by {
                if a < n && b < n {
                } else if a < n {
                    assert(prev.keys@[a] == self.keys@[a]);
                } else {
                    assert(prev.keys@[b] == self.keys@[b]);
                }
            }
            assert(self.wf());
            assert forall|k: AtlasKey| #![auto]
                self.has_key(k) == (prev.has_key(k) || k == *key)
                && (self.has_key(k) ==> {
                    &&& self.tiles@[self.slot(k)] == (if k == *key { tile } else { prev.tiles@[prev.slot(k)] })
                    &&& self.pixels@[self.slot(k)]@ == (if k == *key { bytes@ } else { prev.pixels@[prev.slot(k)]@ })
                }) by {
                if self.has_key(k) {
                    let a = self.slot(k);
                    self.lemma_slot(a);
                    if a < n {
                        assert(prev.keys@[a] == k);
                        prev.lemma_slot(a);
                    }
                }
                if prev.has_key(k) {
                    let pa = prev.slot(k);
                    prev.lemma_slot(pa);
                    assert(self.keys@[pa] == k);
                }
                if k == *key {
                    assert(self.keys@[n] == k);
                }
            }
            assert(self.tile_map() =~= prev.tile_map().insert(*key, tile));
            assert(self.pixel_map() =~= prev.pixel_map().insert(*key, bytes@));
        }
        tile
    }

    /// Stores pixels built for `key` in a tile of `size` with two fresh ids,
    /// replacing the tile and pixels stored under `key`, if any.
    pub fn insert_built(&mut self, key: &AtlasKey, size: Size<DevicePixels>, bytes: Vec<u8>) -> (tile: AtlasTile)
        requires
            old(self).wf(),
            old(self).last_id() + 2 <= u32::MAX,
        ensures
            final(self).wf(),
            tile == fresh_tile(old(self).last_id(), size),
            final(self).tile_map() == old(self).tile_map().insert(*key, tile),
            final(self).pixel_map() == old(self).pixel_map().insert(*key, bytes@),
            final(self).last_id() == old(self).last_id() + 2,
    {
        let ghost before = *self;
        self.remove(key);
        let tile = self.push_new(key, size, bytes);
        assert(self.tile_map() =~= before.tile_map().insert(*key, tile));
        assert(self.pixel_map() =~= before.pixel_map().insert(*key, bytes@));
        tile
    }

    /// The tile stored under `key`, if any.
    pub fn tile(&self, key: &AtlasKey) -> (r: Option<AtlasTile>)
        requires
            self.wf(),
        ensures
            r is Some <==> self.tile_map().dom().contains(*key),
            r matches Some(t) ==> t == self.tile_map()[*key],
    {
        match self.find(key) {
            Some(i) => Some(self.tiles[i]),
            None => None,
        }
    }
}

} // verus!
